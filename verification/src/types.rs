//! Well-known identifiers that change how a value is written.
use vstd::prelude::*;
use crate::ast::DuperIdentifier;
use crate::text::{push_str, str_eq};

verus! {

/// The value types that an identifier can name.
#[non_exhaustive]
#[derive(PartialEq, Eq, Structural, Debug, Clone, Copy)]
pub enum DuperTypes {
    DecInteger,
    HexInteger,
    OctInteger,
    BinInteger,
    Uuid,
    Uuid4,
    Url,
    IsoDatetime,
    IsoDate,
    IsoTime,
    Ip,
    Ipv4,
    Ipv6,
    Cidr,
    Cidrv4,
    Cidrv6,
    Regex,
    Base64,
    Jwt,
}

/// The type that an identifier's text names, if any.
pub open spec fn duper_type_named(s: Seq<char>) -> Option<DuperTypes> {
    if s == "Integer"@ || s == "DecInteger"@ {
        Some(DuperTypes::DecInteger)
    } else if s == "HexInteger"@ {
        Some(DuperTypes::HexInteger)
    } else if s == "OctInteger"@ {
        Some(DuperTypes::OctInteger)
    } else if s == "BinInteger"@ {
        Some(DuperTypes::BinInteger)
    } else if s == "Uuid"@ {
        Some(DuperTypes::Uuid)
    } else if s == "Uuid4"@ {
        Some(DuperTypes::Uuid4)
    } else if s == "Url"@ {
        Some(DuperTypes::Url)
    } else if s == "Datetime"@ || s == "IsoDatetime"@ {
        Some(DuperTypes::IsoDatetime)
    } else if s == "Date"@ || s == "IsoDate"@ {
        Some(DuperTypes::IsoDate)
    } else if s == "Time"@ || s == "IsoTime"@ {
        Some(DuperTypes::IsoTime)
    } else if s == "Ip"@ {
        Some(DuperTypes::Ip)
    } else if s == "Ipv4"@ {
        Some(DuperTypes::Ipv4)
    } else if s == "Ipv6"@ {
        Some(DuperTypes::Ipv6)
    } else if s == "Cidr"@ {
        Some(DuperTypes::Cidr)
    } else if s == "Cidrv4"@ {
        Some(DuperTypes::Cidrv4)
    } else if s == "Cidrv6"@ {
        Some(DuperTypes::Cidrv6)
    } else if s == "Regex"@ {
        Some(DuperTypes::Regex)
    } else if s == "Base64"@ {
        Some(DuperTypes::Base64)
    } else if s == "Jwt"@ {
        Some(DuperTypes::Jwt)
    } else {
        None
    }
}

/// The name under which each type is written: the type's own name.
pub open spec fn name_of_type(t: DuperTypes) -> Seq<char> {
    match t {
        DuperTypes::Base64 => "Base64"@,
        DuperTypes::BinInteger => "BinInteger"@,
        DuperTypes::Cidr => "Cidr"@,
        DuperTypes::Cidrv4 => "Cidrv4"@,
        DuperTypes::Cidrv6 => "Cidrv6"@,
        DuperTypes::DecInteger => "DecInteger"@,
        DuperTypes::HexInteger => "HexInteger"@,
        DuperTypes::Ip => "Ip"@,
        DuperTypes::Ipv4 => "Ipv4"@,
        DuperTypes::Ipv6 => "Ipv6"@,
        DuperTypes::IsoDate => "IsoDate"@,
        DuperTypes::IsoDatetime => "IsoDatetime"@,
        DuperTypes::IsoTime => "IsoTime"@,
        DuperTypes::Jwt => "Jwt"@,
        DuperTypes::OctInteger => "OctInteger"@,
        DuperTypes::Regex => "Regex"@,
        DuperTypes::Url => "Url"@,
        DuperTypes::Uuid => "Uuid"@,
        DuperTypes::Uuid4 => "Uuid4"@,
    }
}

/// Every type is named by its own name: the text of a type's name is read
/// back as that very type, so typed values are written as their type says.
pub proof fn lemma_types_named_by_their_names(t: DuperTypes)
    ensures
        duper_type_named(name_of_type(t)) == Some(t),
{
    reveal_strlit("Base64");
    reveal_strlit("BinInteger");
    reveal_strlit("Cidr");
    reveal_strlit("Cidrv4");
    reveal_strlit("Cidrv6");
    reveal_strlit("Date");
    reveal_strlit("Datetime");
    reveal_strlit("DecInteger");
    reveal_strlit("HexInteger");
    reveal_strlit("Integer");
    reveal_strlit("Ip");
    reveal_strlit("Ipv4");
    reveal_strlit("Ipv6");
    reveal_strlit("IsoDate");
    reveal_strlit("IsoDatetime");
    reveal_strlit("IsoTime");
    reveal_strlit("Jwt");
    reveal_strlit("OctInteger");
    reveal_strlit("Regex");
    reveal_strlit("Time");
    reveal_strlit("Url");
    reveal_strlit("Uuid");
    reveal_strlit("Uuid4");
    match t {
        DuperTypes::Base64 => {
            assert("Base64"@[0] != "Cidrv4"@[0]);
            assert("Base64"@[0] != "Cidrv6"@[0]);
            assert("Base64"@.len() == 6);
            assert(duper_type_named("Base64"@) == Some(DuperTypes::Base64));
        },
        DuperTypes::BinInteger => {
            assert("BinInteger"@[0] != "DecInteger"@[0]);
            assert("BinInteger"@[0] != "HexInteger"@[0]);
            assert("BinInteger"@[0] != "OctInteger"@[0]);
            assert("BinInteger"@.len() == 10);
            assert(duper_type_named("BinInteger"@) == Some(DuperTypes::BinInteger));
        },
        DuperTypes::Cidr => {
            assert("Cidr"@[0] != "Date"@[0]);
            assert("Cidr"@[0] != "Ipv4"@[0]);
            assert("Cidr"@[0] != "Ipv6"@[0]);
            assert("Cidr"@[0] != "Time"@[0]);
            assert("Cidr"@[0] != "Uuid"@[0]);
            assert("Cidr"@.len() == 4);
            assert(duper_type_named("Cidr"@) == Some(DuperTypes::Cidr));
        },
        DuperTypes::Cidrv4 => {
            assert("Cidrv4"@.len() == 6);
            assert(duper_type_named("Cidrv4"@) == Some(DuperTypes::Cidrv4));
        },
        DuperTypes::Cidrv6 => {
            assert("Cidrv6"@[5] != "Cidrv4"@[5]);
            assert("Cidrv6"@.len() == 6);
            assert(duper_type_named("Cidrv6"@) == Some(DuperTypes::Cidrv6));
        },
        DuperTypes::DecInteger => {
            assert("DecInteger"@.len() == 10);
            assert(duper_type_named("DecInteger"@) == Some(DuperTypes::DecInteger));
        },
        DuperTypes::HexInteger => {
            assert("HexInteger"@[0] != "DecInteger"@[0]);
            assert("HexInteger"@.len() == 10);
            assert(duper_type_named("HexInteger"@) == Some(DuperTypes::HexInteger));
        },
        DuperTypes::Ip => {
            assert("Ip"@.len() == 2);
            assert(duper_type_named("Ip"@) == Some(DuperTypes::Ip));
        },
        DuperTypes::Ipv4 => {
            assert("Ipv4"@[0] != "Date"@[0]);
            assert("Ipv4"@[0] != "Time"@[0]);
            assert("Ipv4"@[0] != "Uuid"@[0]);
            assert("Ipv4"@.len() == 4);
            assert(duper_type_named("Ipv4"@) == Some(DuperTypes::Ipv4));
        },
        DuperTypes::Ipv6 => {
            assert("Ipv6"@[0] != "Date"@[0]);
            assert("Ipv6"@[3] != "Ipv4"@[3]);
            assert("Ipv6"@[0] != "Time"@[0]);
            assert("Ipv6"@[0] != "Uuid"@[0]);
            assert("Ipv6"@.len() == 4);
            assert(duper_type_named("Ipv6"@) == Some(DuperTypes::Ipv6));
        },
        DuperTypes::IsoDate => {
            assert("IsoDate"@[1] != "Integer"@[1]);
            assert("IsoDate"@.len() == 7);
            assert(duper_type_named("IsoDate"@) == Some(DuperTypes::IsoDate));
        },
        DuperTypes::IsoDatetime => {
            assert("IsoDatetime"@.len() == 11);
            assert(duper_type_named("IsoDatetime"@) == Some(DuperTypes::IsoDatetime));
        },
        DuperTypes::IsoTime => {
            assert("IsoTime"@[1] != "Integer"@[1]);
            assert("IsoTime"@[3] != "IsoDate"@[3]);
            assert("IsoTime"@.len() == 7);
            assert(duper_type_named("IsoTime"@) == Some(DuperTypes::IsoTime));
        },
        DuperTypes::Jwt => {
            assert("Jwt"@[0] != "Url"@[0]);
            assert("Jwt"@.len() == 3);
            assert(duper_type_named("Jwt"@) == Some(DuperTypes::Jwt));
        },
        DuperTypes::OctInteger => {
            assert("OctInteger"@[0] != "DecInteger"@[0]);
            assert("OctInteger"@[0] != "HexInteger"@[0]);
            assert("OctInteger"@.len() == 10);
            assert(duper_type_named("OctInteger"@) == Some(DuperTypes::OctInteger));
        },
        DuperTypes::Regex => {
            assert("Regex"@[0] != "Uuid4"@[0]);
            assert("Regex"@.len() == 5);
            assert(duper_type_named("Regex"@) == Some(DuperTypes::Regex));
        },
        DuperTypes::Url => {
            assert("Url"@.len() == 3);
            assert(duper_type_named("Url"@) == Some(DuperTypes::Url));
        },
        DuperTypes::Uuid => {
            assert("Uuid"@.len() == 4);
            assert(duper_type_named("Uuid"@) == Some(DuperTypes::Uuid));
        },
        DuperTypes::Uuid4 => {
            assert("Uuid4"@.len() == 5);
            assert(duper_type_named("Uuid4"@) == Some(DuperTypes::Uuid4));
        },
    }
}

/// The shorter name that some types are also known by: `Integer`,
/// `Datetime`, `Date` and `Time`.
pub open spec fn short_name_of_type(t: DuperTypes) -> Option<Seq<char>> {
    match t {
        DuperTypes::DecInteger => Some("Integer"@),
        DuperTypes::IsoDatetime => Some("Datetime"@),
        DuperTypes::IsoDate => Some("Date"@),
        DuperTypes::IsoTime => Some("Time"@),
        _ => None,
    }
}

/// A text names a type exactly when it is that type's own name or its
/// shorter name: no other text names any type.
pub proof fn lemma_type_names_exact(s: Seq<char>, t: DuperTypes)
    ensures
        duper_type_named(s) == Some(t) <==> (s == name_of_type(t) || short_name_of_type(t) == Some(s)),
{
    lemma_types_named_by_their_names(t);
    reveal_strlit("Integer");
    reveal_strlit("DecInteger");
    reveal_strlit("HexInteger");
    reveal_strlit("OctInteger");
    reveal_strlit("BinInteger");
    reveal_strlit("Uuid");
    reveal_strlit("Uuid4");
    reveal_strlit("Url");
    reveal_strlit("Datetime");
    reveal_strlit("IsoDatetime");
    reveal_strlit("Date");
    reveal_strlit("IsoDate");
    reveal_strlit("Time");
    reveal_strlit("IsoTime");
    assert("Integer"@.len() != "Date"@.len());
    assert("Integer"@.len() != "Time"@.len());
    assert("Integer"@.len() != "Datetime"@.len());
    assert("Integer"@.len() != "Uuid"@.len());
    assert("Integer"@.len() != "Uuid4"@.len());
    assert("Integer"@.len() != "Url"@.len());
    assert("Integer"@[1] != "IsoDate"@[1]);
    assert("Integer"@[1] != "IsoTime"@[1]);
    assert("Datetime"@[0] != "Integer"@[0]);
    assert("Datetime"@.len() != "DecInteger"@.len());
    assert("Datetime"@.len() != "HexInteger"@.len());
    assert("Datetime"@.len() != "OctInteger"@.len());
    assert("Datetime"@.len() != "BinInteger"@.len());
    assert("Datetime"@.len() != "Uuid"@.len());
    assert("Datetime"@.len() != "Uuid4"@.len());
    assert("Datetime"@.len() != "Url"@.len());
    assert("Date"@.len() != "Integer"@.len());
    assert("Date"@.len() != "DecInteger"@.len());
    assert("Date"@.len() != "HexInteger"@.len());
    assert("Date"@.len() != "OctInteger"@.len());
    assert("Date"@.len() != "BinInteger"@.len());
    assert("Date"@[0] != "Uuid"@[0]);
    assert("Date"@.len() != "Uuid4"@.len());
    assert("Date"@.len() != "Url"@.len());
    assert("Date"@.len() != "Datetime"@.len());
    assert("Date"@.len() != "IsoDatetime"@.len());
    assert("Time"@.len() != "Integer"@.len());
    assert("Time"@.len() != "DecInteger"@.len());
    assert("Time"@.len() != "HexInteger"@.len());
    assert("Time"@.len() != "OctInteger"@.len());
    assert("Time"@.len() != "BinInteger"@.len());
    assert("Time"@[0] != "Uuid"@[0]);
    assert("Time"@.len() != "Uuid4"@.len());
    assert("Time"@.len() != "Url"@.len());
    assert("Time"@.len() != "Datetime"@.len());
    assert("Time"@.len() != "IsoDatetime"@.len());
    assert("Time"@[0] != "Date"@[0]);
    assert("Time"@.len() != "IsoDate"@.len());
}

/// The type named by a string, if any (no error message).
pub fn type_of_name(s: &str) -> (r: Option<DuperTypes>)
    ensures
        r == duper_type_named(s@),
{
    if str_eq(s, "Integer") || str_eq(s, "DecInteger") {
        Some(DuperTypes::DecInteger)
    } else if str_eq(s, "HexInteger") {
        Some(DuperTypes::HexInteger)
    } else if str_eq(s, "OctInteger") {
        Some(DuperTypes::OctInteger)
    } else if str_eq(s, "BinInteger") {
        Some(DuperTypes::BinInteger)
    } else if str_eq(s, "Uuid") {
        Some(DuperTypes::Uuid)
    } else if str_eq(s, "Uuid4") {
        Some(DuperTypes::Uuid4)
    } else if str_eq(s, "Url") {
        Some(DuperTypes::Url)
    } else if str_eq(s, "Datetime") || str_eq(s, "IsoDatetime") {
        Some(DuperTypes::IsoDatetime)
    } else if str_eq(s, "Date") || str_eq(s, "IsoDate") {
        Some(DuperTypes::IsoDate)
    } else if str_eq(s, "Time") || str_eq(s, "IsoTime") {
        Some(DuperTypes::IsoTime)
    } else if str_eq(s, "Ip") {
        Some(DuperTypes::Ip)
    } else if str_eq(s, "Ipv4") {
        Some(DuperTypes::Ipv4)
    } else if str_eq(s, "Ipv6") {
        Some(DuperTypes::Ipv6)
    } else if str_eq(s, "Cidr") {
        Some(DuperTypes::Cidr)
    } else if str_eq(s, "Cidrv4") {
        Some(DuperTypes::Cidrv4)
    } else if str_eq(s, "Cidrv6") {
        Some(DuperTypes::Cidrv6)
    } else if str_eq(s, "Regex") {
        Some(DuperTypes::Regex)
    } else if str_eq(s, "Base64") {
        Some(DuperTypes::Base64)
    } else if str_eq(s, "Jwt") {
        Some(DuperTypes::Jwt)
    } else {
        None
    }
}

impl DuperTypes {
    /// The type that an identifier names, or the message
    /// `Unsupported type <identifier>`.
    pub fn try_from(identifier: &DuperIdentifier) -> (r: Result<DuperTypes, String>)
        ensures
            r matches Ok(t) ==> duper_type_named(identifier@) == Some(t),
            r is Err <==> duper_type_named(identifier@) is None,
            r matches Err(msg) ==> msg@ == "Unsupported type "@ + identifier@,
    {
        let name = identifier.as_str();
        match type_of_name(name) {
            Some(t) => Ok(t),
            None => {
                let mut msg = String::new();
                push_str(&mut msg, "Unsupported type ");
                push_str(&mut msg, name);
                Err(msg)
            },
        }
    }
}

} // verus!
