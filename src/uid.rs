//! Unique identifiers and their closed set of kinds.
use vstd::prelude::*;

use crate::text::str_eq;

verus! {

/// The kind of a unique identifier, as named in the registry's "UID Type" column.
#[derive(Clone, Copy, Debug, PartialEq, Eq, Hash, Structural)]
pub enum Kind {
    ApplicationContextName,
    ApplicationHostingModel,
    CodingScheme,
    DicomUidsAsCodingScheme,
    LdapOid,
    MappingResource,
    MetaSopClass,
    ServiceClass,
    SopClass,
    SynchronizationFrameOfReference,
    TransferSyntax,
    WellKnownFrameOfReference,
    WellKnownPrinterSopInstance,
    WellKnownPrintQueueSopInstance,
    WellKnownSopInstance,
}

/// The kind that the category text names, by exact match; `None` for any other text.
pub open spec fn kind_of(category: Seq<char>) -> Option<Kind> {
    if category == "Application Context Name"@ {
        Some(Kind::ApplicationContextName)
    } else if category == "Application Hosting Model"@ {
        Some(Kind::ApplicationHostingModel)
    } else if category == "Coding Scheme"@ {
        Some(Kind::CodingScheme)
    } else if category == "DICOM UIDs as a Coding Scheme"@ {
        Some(Kind::DicomUidsAsCodingScheme)
    } else if category == "LDAP OID"@ {
        Some(Kind::LdapOid)
    } else if category == "Mapping Resource"@ {
        Some(Kind::MappingResource)
    } else if category == "Meta SOP Class"@ {
        Some(Kind::MetaSopClass)
    } else if category == "Service Class"@ {
        Some(Kind::ServiceClass)
    } else if category == "SOP Class"@ {
        Some(Kind::SopClass)
    } else if category == "Synchronization Frame of Reference"@ {
        Some(Kind::SynchronizationFrameOfReference)
    } else if category == "Transfer Syntax"@ {
        Some(Kind::TransferSyntax)
    } else if category == "Well-known frame of reference"@ {
        Some(Kind::WellKnownFrameOfReference)
    } else if category == "Well-known Printer SOP Instance"@ {
        Some(Kind::WellKnownPrinterSopInstance)
    } else if category == "Well-known Print Queue SOP Instance"@ {
        Some(Kind::WellKnownPrintQueueSopInstance)
    } else if category == "Well-known SOP Instance"@ {
        Some(Kind::WellKnownSopInstance)
    } else {
        None
    }
}

impl Kind {
    /// The kind that `category` names exactly, or `None` when it names none.
    pub fn from_category(category: &str) -> (r: Option<Kind>)
        ensures
            r == kind_of(category@),
    {
        if str_eq(category, "Application Context Name") {
            Some(Kind::ApplicationContextName)
        } else if str_eq(category, "Application Hosting Model") {
            Some(Kind::ApplicationHostingModel)
        } else if str_eq(category, "Coding Scheme") {
            Some(Kind::CodingScheme)
        } else if str_eq(category, "DICOM UIDs as a Coding Scheme") {
            Some(Kind::DicomUidsAsCodingScheme)
        } else if str_eq(category, "LDAP OID") {
            Some(Kind::LdapOid)
        } else if str_eq(category, "Mapping Resource") {
            Some(Kind::MappingResource)
        } else if str_eq(category, "Meta SOP Class") {
            Some(Kind::MetaSopClass)
        } else if str_eq(category, "Service Class") {
            Some(Kind::ServiceClass)
        } else if str_eq(category, "SOP Class") {
            Some(Kind::SopClass)
        } else if str_eq(category, "Synchronization Frame of Reference") {
            Some(Kind::SynchronizationFrameOfReference)
        } else if str_eq(category, "Transfer Syntax") {
            Some(Kind::TransferSyntax)
        } else if str_eq(category, "Well-known frame of reference") {
            Some(Kind::WellKnownFrameOfReference)
        } else if str_eq(category, "Well-known Printer SOP Instance") {
            Some(Kind::WellKnownPrinterSopInstance)
        } else if str_eq(category, "Well-known Print Queue SOP Instance") {
            Some(Kind::WellKnownPrintQueueSopInstance)
        } else if str_eq(category, "Well-known SOP Instance") {
            Some(Kind::WellKnownSopInstance)
        } else {
            None
        }
    }
}

/// One row of the registry of unique identifiers.
#[derive(Clone, Debug, PartialEq, Eq, Hash)]
pub struct UID {
    /// The dotted identifier (e.g. "1.2.840.10008.1.1"), separator markers removed.
    pub value: String,
    /// The name as the registry gives it, qualifier and "(Retired)" included.
    pub full_name: String,
    /// The full name cut at its first colon and without " (Retired)".
    pub normalized_name: String,
    /// The kind of the identifier.
    pub kind: Kind,
}

/// The mathematical value of a [`UID`].
pub struct UidView {
    pub value: Seq<char>,
    pub full_name: Seq<char>,
    pub normalized_name: Seq<char>,
    pub kind: Kind,
}

impl View for UID {
    type V = UidView;

    open spec fn view(&self) -> UidView {
        UidView {
            value: self.value@,
            full_name: self.full_name@,
            normalized_name: self.normalized_name@,
            kind: self.kind,
        }
    }
}

impl UID {
    /// An identifier with empty texts, of kind `TransferSyntax`.
    pub fn new() -> (r: UID)
        ensures
            r@ == (UidView {
                value: Seq::empty(),
                full_name: Seq::empty(),
                normalized_name: Seq::empty(),
                kind: Kind::TransferSyntax,
            }),
    {
        UID {
            value: String::new(),
            full_name: String::new(),
            normalized_name: String::new(),
            kind: Kind::TransferSyntax,
        }
    }
}

} // verus!
