//! The device taxonomy: raw hardware identifiers resolve to a product, and a
//! product's name places it in a family.

use vstd::prelude::*;
use crate::errors::FeatureError;
use crate::text::str_eq;
use crate::text::str_starts_with;

verus! {

/// Coarse generation grouping, derived from the product name's prefix.
#[derive(Debug, Clone, Copy, PartialEq, Eq, Structural)]
pub enum RBLNDeviceFamily {
    ATOM,
    REBEL,
}

/// The label text of a family.
pub open spec fn family_name(f: RBLNDeviceFamily) -> Seq<char> {
    match f {
        RBLNDeviceFamily::ATOM => "ATOM"@,
        RBLNDeviceFamily::REBEL => "REBEL"@,
    }
}

impl RBLNDeviceFamily {
    /// The family's name as label text.
    pub fn name(&self) -> (r: String)
        ensures
            r@ == family_name(*self),
    {
        match self {
            RBLNDeviceFamily::ATOM => "ATOM".to_owned(),
            RBLNDeviceFamily::REBEL => "REBEL".to_owned(),
        }
    }
}

/// A specific accelerator model.
#[derive(Debug, Clone, Copy, PartialEq, Eq, Structural)]
pub enum RBLNDeviceProduct {
    CA02,
    CA12,
    CA15,
    CA22,
    CA25,
}

/// The model name of a product.
pub open spec fn product_name(p: RBLNDeviceProduct) -> Seq<char> {
    match p {
        RBLNDeviceProduct::CA02 => "CA02"@,
        RBLNDeviceProduct::CA12 => "CA12"@,
        RBLNDeviceProduct::CA15 => "CA15"@,
        RBLNDeviceProduct::CA22 => "CA22"@,
        RBLNDeviceProduct::CA25 => "CA25"@,
    }
}

/// The static identifier table: which raw device identifiers denote which
/// product. A base variant and its virtualization-capable sibling share a
/// classification.
pub open spec fn product_of_id(id: Seq<char>) -> Option<RBLNDeviceProduct> {
    if id == "1020"@ {
        Some(RBLNDeviceProduct::CA02)
    } else if id == "1021"@ {
        Some(RBLNDeviceProduct::CA02)
    } else if id == "1120"@ {
        Some(RBLNDeviceProduct::CA12)
    } else if id == "1121"@ {
        Some(RBLNDeviceProduct::CA12)
    } else if id == "1150"@ {
        Some(RBLNDeviceProduct::CA15)
    } else if id == "1220"@ {
        Some(RBLNDeviceProduct::CA22)
    } else if id == "1221"@ {
        Some(RBLNDeviceProduct::CA22)
    } else if id == "1250"@ {
        Some(RBLNDeviceProduct::CA25)
    } else {
        None
    }
}

/// Family of a product, by its name's prefix: `CA` products are ATOM, `CR`
/// products are REBEL, anything else is unclassified.
pub open spec fn family_of(p: RBLNDeviceProduct) -> Option<RBLNDeviceFamily> {
    if product_name(p).len() >= 2 && product_name(p).take(2) == "CA"@ {
        Some(RBLNDeviceFamily::ATOM)
    } else if product_name(p).len() >= 2 && product_name(p).take(2) == "CR"@ {
        Some(RBLNDeviceFamily::REBEL)
    } else {
        None
    }
}

impl RBLNDeviceProduct {
    /// The product's model name as label text.
    pub fn name(&self) -> (r: String)
        ensures
            r@ == product_name(*self),
    {
        match self {
            RBLNDeviceProduct::CA02 => "CA02".to_owned(),
            RBLNDeviceProduct::CA12 => "CA12".to_owned(),
            RBLNDeviceProduct::CA15 => "CA15".to_owned(),
            RBLNDeviceProduct::CA22 => "CA22".to_owned(),
            RBLNDeviceProduct::CA25 => "CA25".to_owned(),
        }
    }

    /// The product label as published: the model name under the `RBLN-` brand
    /// prefix.
    pub fn to_feature_string(&self) -> (r: String)
        ensures
            r@ == "RBLN-"@ + product_name(*self),
    {
        let mut r = "RBLN-".to_owned();
        let name = self.name();
        r.append(name.as_str());
        r
    }

    /// Looks a raw device identifier up in the static table; identifiers
    /// outside the table are a hard error, never skipped.
    pub fn from_device_id(id: &str) -> (r: Result<Self, FeatureError>)
        ensures
            r matches Ok(p) ==> product_of_id(id@) == Some(p),
            r matches Err(e) ==> product_of_id(id@) is None && e == FeatureError::UnknownDeviceId,
    {
        if str_eq(id, "1020") {
            Ok(RBLNDeviceProduct::CA02)
        } else if str_eq(id, "1021") {
            Ok(RBLNDeviceProduct::CA02)
        } else if str_eq(id, "1120") {
            Ok(RBLNDeviceProduct::CA12)
        } else if str_eq(id, "1121") {
            Ok(RBLNDeviceProduct::CA12)
        } else if str_eq(id, "1150") {
            Ok(RBLNDeviceProduct::CA15)
        } else if str_eq(id, "1220") {
            Ok(RBLNDeviceProduct::CA22)
        } else if str_eq(id, "1221") {
            Ok(RBLNDeviceProduct::CA22)
        } else if str_eq(id, "1250") {
            Ok(RBLNDeviceProduct::CA25)
        } else {
            Err(FeatureError::UnknownDeviceId)
        }
    }

    /// Derives the family from the product's name prefix. Unclassifiable
    /// names are reported, not treated as unreachable.
    pub fn family(&self) -> (r: Result<RBLNDeviceFamily, FeatureError>)
        ensures
            r matches Ok(f) ==> family_of(*self) == Some(f),
            r matches Err(e) ==> family_of(*self) is None && e == FeatureError::UnknownProductName,
    {
        proof {
            reveal_strlit("CA");
            reveal_strlit("CR");
        }
        let name = self.name();
        if str_starts_with(name.as_str(), "CA") {
            Ok(RBLNDeviceFamily::ATOM)
        } else if str_starts_with(name.as_str(), "CR") {
            Ok(RBLNDeviceFamily::REBEL)
        } else {
            Err(FeatureError::UnknownProductName)
        }
    }
}

/// The taxonomy as documented: every identifier in the table maps to its
/// product, every identifier outside it to none, and every product the table
/// can produce sits in the ATOM family.
pub proof fn lemma_taxonomy_table()
    ensures
        product_of_id("1020"@) == Some(RBLNDeviceProduct::CA02),
        product_of_id("1021"@) == Some(RBLNDeviceProduct::CA02),
        product_of_id("1120"@) == Some(RBLNDeviceProduct::CA12),
        product_of_id("1121"@) == Some(RBLNDeviceProduct::CA12),
        product_of_id("1150"@) == Some(RBLNDeviceProduct::CA15),
        product_of_id("1220"@) == Some(RBLNDeviceProduct::CA22),
        product_of_id("1221"@) == Some(RBLNDeviceProduct::CA22),
        product_of_id("1250"@) == Some(RBLNDeviceProduct::CA25),
        forall|id: Seq<char>|
            !(id == "1020"@ || id == "1021"@ || id == "1120"@ || id == "1121"@ || id == "1150"@
                || id == "1220"@ || id == "1221"@ || id == "1250"@) ==> product_of_id(id) is None,
        forall|p: RBLNDeviceProduct| #[trigger] family_of(p) == Some(RBLNDeviceFamily::ATOM),
{
    reveal_strlit("1020");
    reveal_strlit("1021");
    reveal_strlit("1120");
    reveal_strlit("1121");
    reveal_strlit("1150");
    reveal_strlit("1220");
    reveal_strlit("1221");
    reveal_strlit("1250");
    reveal_strlit("CA");
    reveal_strlit("CR");
    reveal_strlit("CA02");
    reveal_strlit("CA12");
    reveal_strlit("CA15");
    reveal_strlit("CA22");
    reveal_strlit("CA25");
    assert(("1020"@)[1] == '0' && ("1020"@)[2] == '2' && ("1020"@)[3] == '0');
    assert(("1021"@)[1] == '0' && ("1021"@)[2] == '2' && ("1021"@)[3] == '1');
    assert(("1120"@)[1] == '1' && ("1120"@)[2] == '2' && ("1120"@)[3] == '0');
    assert(("1121"@)[1] == '1' && ("1121"@)[2] == '2' && ("1121"@)[3] == '1');
    assert(("1150"@)[1] == '1' && ("1150"@)[2] == '5' && ("1150"@)[3] == '0');
    assert(("1220"@)[1] == '2' && ("1220"@)[2] == '2' && ("1220"@)[3] == '0');
    assert(("1221"@)[1] == '2' && ("1221"@)[2] == '2' && ("1221"@)[3] == '1');
    assert(("1250"@)[1] == '2' && ("1250"@)[2] == '5' && ("1250"@)[3] == '0');
    assert forall|p: RBLNDeviceProduct| #[trigger] family_of(p) == Some(RBLNDeviceFamily::ATOM) by {
        assert(product_name(p).take(2) =~= "CA"@) by {
            match p {
                RBLNDeviceProduct::CA02 => {},
                RBLNDeviceProduct::CA12 => {},
                RBLNDeviceProduct::CA15 => {},
                RBLNDeviceProduct::CA22 => {},
                RBLNDeviceProduct::CA25 => {},
            }
        }
    }
}

} // verus!
