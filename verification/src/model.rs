//! The data model: a plain record for one network interface, and the
//! classification of its status field into a closed set of keys.

use vstd::prelude::*;

verus! {

/// The classification key for a network interface's lifecycle status.
///
/// The provider's status enumeration is open-ended: values outside the known
/// set collapse to `Unknown`, and an interface that carries no status at all
/// is classified `Absent`.
#[derive(Clone, Copy, Debug, PartialEq, Eq, Structural)]
pub enum StatusKey {
    Associated,
    Attaching,
    Available,
    Detaching,
    InUse,
    Unknown,
    Absent,
}

/// A network interface as the library sees it: an optional identifier and an
/// optional raw status string, exactly the two fields the logic reads.
#[derive(Clone, Debug)]
pub struct EniRecord {
    /// The interface's identifier, absent when the provider returned none.
    pub id: Option<String>,
    /// The raw status string, absent when the provider returned none.
    pub status: Option<String>,
}

/// The mathematical view of an [`EniRecord`].
pub ghost struct EniView {
    pub id: Option<Seq<char>>,
    pub status: Option<Seq<char>>,
}

impl View for EniRecord {
    type V = EniView;

    open spec fn view(&self) -> EniView {
        EniView { id: self.id.deep_view(), status: self.status.deep_view() }
    }
}

impl DeepView for EniRecord {
    type V = EniView;

    open spec fn deep_view(&self) -> EniView {
        self@
    }
}

/// What [`classify`] returns for a given raw status.
pub open spec fn spec_classify(status: Option<Seq<char>>) -> StatusKey {
    match status {
        Option::None => StatusKey::Absent,
        Option::Some(s) => if s == "associated"@ {
            StatusKey::Associated
        } else if s == "attaching"@ {
            StatusKey::Attaching
        } else if s == "available"@ {
            StatusKey::Available
        } else if s == "detaching"@ {
            StatusKey::Detaching
        } else if s == "in-use"@ {
            StatusKey::InUse
        } else {
            StatusKey::Unknown
        },
    }
}

/// Classifies a raw status string into a [`StatusKey`].
///
/// Recognized values map to their key; any other present value maps to
/// `Unknown`, and an absent value maps to `Absent`.
pub fn classify(status: &Option<String>) -> (k: StatusKey)
    ensures
        k == spec_classify(status.deep_view()),
{
    match status {
        Option::None => StatusKey::Absent,
        Option::Some(s) => {
            if *s == "associated".to_owned() {
                StatusKey::Associated
            } else if *s == "attaching".to_owned() {
                StatusKey::Attaching
            } else if *s == "available".to_owned() {
                StatusKey::Available
            } else if *s == "detaching".to_owned() {
                StatusKey::Detaching
            } else if *s == "in-use".to_owned() {
                StatusKey::InUse
            } else {
                StatusKey::Unknown
            }
        },
    }
}

} // verus!
