//! The document model: the typed, owned representation of a parsed
//! configuration tree, and the resolution of each config leaf to its
//! effective value.
//!
//! Double-precision values are carried as their literal text: the tool never
//! computes with them, it only checks their shape on the way in
//! (`is_double_text`) and writes them back out unchanged.

use vstd::prelude::*;

use crate::error::{FormatError, GFormatError};

verus! {

/// Mathematical image of a `BooleanType`.
pub struct GBoolean {
    pub default: bool,
    pub value: Option<bool>,
}

/// Mathematical image of an `IntegerType`.
pub struct GInteger {
    pub default: i32,
    pub value: Option<i32>,
    pub min: Option<i32>,
    pub max: Option<i32>,
}

/// Mathematical image of a `DoubleType`.
pub struct GDouble {
    pub default: Seq<char>,
    pub value: Option<Seq<char>>,
    pub min: Option<Seq<char>>,
    pub max: Option<Seq<char>>,
}

/// Mathematical image of a `StringType`.
pub struct GStringValue {
    pub default: Seq<char>,
    pub value: Option<Seq<char>>,
    pub min_length: Option<u32>,
    pub max_length: Option<u32>,
}

/// Mathematical image of a `MemberType`.
pub struct GMember {
    pub content: Seq<char>,
}

/// Mathematical image of an `EnumType`.
pub struct GEnum {
    pub default: u32,
    pub value: Option<u32>,
    pub members: Seq<GMember>,
}

/// Mathematical image of a `ConfigType`.
pub struct GConfig {
    pub key: Seq<char>,
    pub boolean: Option<GBoolean>,
    pub integer: Option<GInteger>,
    pub double: Option<GDouble>,
    pub string: Option<GStringValue>,
    pub enumeration: Option<GEnum>,
}

/// Mathematical image of a `SectionType`.
pub struct GSection {
    pub name: Seq<char>,
    pub sections: Seq<GSection>,
    pub configs: Seq<GConfig>,
}

/// Mathematical image of a `Konfigurator`.
pub struct GKonfigurator {
    pub name: Seq<char>,
    pub arch: Seq<char>,
    pub profile: Seq<char>,
    pub sections: Seq<GSection>,
}

/// A boolean leaf: mandatory default, optional override.
pub struct BooleanType {
    pub default: bool,
    pub value: Option<bool>,
}

/// A 32-bit integer leaf: mandatory default, optional override, unenforced
/// bound metadata.
pub struct IntegerType {
    pub default: i32,
    pub value: Option<i32>,
    pub min: Option<i32>,
    pub max: Option<i32>,
}

/// A double-precision leaf, carried as literal text.
pub struct DoubleType {
    pub default: String,
    pub value: Option<String>,
    pub min: Option<String>,
    pub max: Option<String>,
}

/// A text leaf: mandatory default, optional override, unenforced length
/// metadata.
pub struct StringType {
    pub default: String,
    pub value: Option<String>,
    pub min_length: Option<u32>,
    pub max_length: Option<u32>,
}

/// One selectable payload of an enum leaf.
pub struct MemberType {
    pub content: String,
}

/// An enum leaf: zero-based default and optional override index into its
/// ordered members.
pub struct EnumType {
    pub default: u32,
    pub value: Option<u32>,
    pub members: Vec<MemberType>,
}

/// A named config leaf holding exactly one populated value kind.
pub struct ConfigType {
    pub key: String,
    pub boolean: Option<BooleanType>,
    pub integer: Option<IntegerType>,
    pub double: Option<DoubleType>,
    pub string: Option<StringType>,
    pub enumeration: Option<EnumType>,
}

/// A named grouping node: nested sections, then config leaves.
pub struct SectionType {
    pub name: String,
    pub sections: Vec<SectionType>,
    pub configs: Vec<ConfigType>,
}

/// The root of a parsed document: its identity attributes and its top-level
/// sections.
pub struct Konfigurator {
    pub name: String,
    pub arch: String,
    pub profile: String,
    pub sections: Vec<SectionType>,
}

pub open spec fn opt_str_view(o: Option<String>) -> Option<Seq<char>> {
    match o {
        Some(s) => Some(s@),
        None => None,
    }
}

impl View for BooleanType {
    type V = GBoolean;

    open spec fn view(&self) -> GBoolean {
        GBoolean { default: self.default, value: self.value }
    }
}

impl View for IntegerType {
    type V = GInteger;

    open spec fn view(&self) -> GInteger {
        GInteger { default: self.default, value: self.value, min: self.min, max: self.max }
    }
}

impl View for DoubleType {
    type V = GDouble;

    open spec fn view(&self) -> GDouble {
        GDouble {
            default: self.default@,
            value: opt_str_view(self.value),
            min: opt_str_view(self.min),
            max: opt_str_view(self.max),
        }
    }
}

impl View for StringType {
    type V = GStringValue;

    open spec fn view(&self) -> GStringValue {
        GStringValue {
            default: self.default@,
            value: opt_str_view(self.value),
            min_length: self.min_length,
            max_length: self.max_length,
        }
    }
}

impl View for MemberType {
    type V = GMember;

    open spec fn view(&self) -> GMember {
        GMember { content: self.content@ }
    }
}

impl View for EnumType {
    type V = GEnum;

    open spec fn view(&self) -> GEnum {
        GEnum {
            default: self.default,
            value: self.value,
            members: Seq::new(self.members@.len(), |i: int| self.members[i]@),
        }
    }
}

impl View for ConfigType {
    type V = GConfig;

    open spec fn view(&self) -> GConfig {
        GConfig {
            key: self.key@,
            boolean: match self.boolean {
                Some(b) => Some(b@),
                None => None,
            },
            integer: match self.integer {
                Some(b) => Some(b@),
                None => None,
            },
            double: match self.double {
                Some(b) => Some(b@),
                None => None,
            },
            string: match self.string {
                Some(b) => Some(b@),
                None => None,
            },
            enumeration: match self.enumeration {
                Some(b) => Some(b@),
                None => None,
            },
        }
    }
}

/// The section with nothing in it; stands in for an out-of-range index.
pub open spec fn empty_gsection() -> GSection {
    GSection { name: Seq::empty(), sections: Seq::empty(), configs: Seq::empty() }
}

impl View for SectionType {
    type V = GSection;

    open spec fn view(&self) -> GSection
        decreases self,
    {
        GSection {
            name: self.name@,
            sections: Seq::new(
                self.sections@.len(),
                |i: int|
                    if 0 <= i < self.sections@.len() {
                        self.sections[i]@
                    } else {
                        empty_gsection()
                    },
            ),
            configs: Seq::new(self.configs@.len(), |i: int| self.configs[i]@),
        }
    }
}

/// The views of a section list.
pub open spec fn sections_view(v: Vec<SectionType>) -> Seq<GSection> {
    Seq::new(
        v@.len(),
        |i: int|
            if 0 <= i < v@.len() {
                v[i]@
            } else {
                empty_gsection()
            },
    )
}

/// The views of a config list.
pub open spec fn configs_view(v: Vec<ConfigType>) -> Seq<GConfig> {
    Seq::new(v@.len(), |i: int| v[i]@)
}

/// The views of a member list.
pub open spec fn members_view(v: Vec<MemberType>) -> Seq<GMember> {
    Seq::new(v@.len(), |i: int| v[i]@)
}

impl View for Konfigurator {
    type V = GKonfigurator;

    open spec fn view(&self) -> GKonfigurator {
        GKonfigurator {
            name: self.name@,
            arch: self.arch@,
            profile: self.profile@,
            sections: sections_view(self.sections),
        }
    }
}

/// A resolved value, tagged by its kind.
pub enum GConfigData {
    Boolean(bool),
    Integer(i32),
    Double(Seq<char>),
    String(Seq<char>),
    Enum(Seq<char>),
}

/// The effective value of a config leaf: the override when present, else the
/// default; for an enum, the member selected by the resolved index. A double
/// is its literal text.
pub enum ConfigDataType {
    Boolean(bool),
    Integer(i32),
    Double(String),
    String(String),
    Enum(String),
}

impl View for ConfigDataType {
    type V = GConfigData;

    open spec fn view(&self) -> GConfigData {
        match self {
            ConfigDataType::Boolean(b) => GConfigData::Boolean(*b),
            ConfigDataType::Integer(i) => GConfigData::Integer(*i),
            ConfigDataType::Double(s) => GConfigData::Double(s@),
            ConfigDataType::String(s) => GConfigData::String(s@),
            ConfigDataType::Enum(s) => GConfigData::Enum(s@),
        }
    }
}

/// The resolved value of a config leaf: the first populated kind, in the
/// fixed order boolean, integer, double, string, enum, with the override
/// taken when present and the default otherwise. An enum whose resolved
/// index has no member, or a leaf with no populated kind, fails.
pub open spec fn resolved_value(c: GConfig) -> Result<GConfigData, GFormatError> {
    match c.boolean {
        Some(b) => Ok(
            GConfigData::Boolean(
                match b.value {
                    Some(v) => v,
                    None => b.default,
                },
            ),
        ),
        None => match c.integer {
            Some(b) => Ok(
                GConfigData::Integer(
                    match b.value {
                        Some(v) => v,
                        None => b.default,
                    },
                ),
            ),
            None => match c.double {
                Some(b) => Ok(
                    GConfigData::Double(
                        match b.value {
                            Some(v) => v,
                            None => b.default,
                        },
                    ),
                ),
                None => match c.string {
                    Some(b) => Ok(
                        GConfigData::String(
                            match b.value {
                                Some(v) => v,
                                None => b.default,
                            },
                        ),
                    ),
                    None => match c.enumeration {
                        Some(e) => {
                            let idx = match e.value {
                                Some(v) => v,
                                None => e.default,
                            };
                            if (idx as int) < e.members.len() {
                                Ok(GConfigData::Enum(e.members[idx as int].content))
                            } else {
                                Err(GFormatError::EnumIndexOutOfRange(c.key))
                            }
                        },
                        None => Err(GFormatError::NoValueKind(c.key)),
                    },
                },
            },
        },
    }
}

impl ConfigType {
    /// The effective value of this leaf, or the failure that prevents one.
    pub fn value(&self) -> (r: Result<ConfigDataType, FormatError>)
        ensures
            match r {
                Ok(v) => resolved_value(self@) == Ok::<GConfigData, GFormatError>(v@),
                Err(e) => resolved_value(self@) == Err::<GConfigData, GFormatError>(e@),
            },
    {
        match &self.boolean {
            Some(inner) => {
                let v = match inner.value {
                    Some(v) => v,
                    None => inner.default,
                };
                Ok(ConfigDataType::Boolean(v))
            },
            None => match &self.integer {
                Some(inner) => {
                    let v = match inner.value {
                        Some(v) => v,
                        None => inner.default,
                    };
                    Ok(ConfigDataType::Integer(v))
                },
                None => match &self.double {
                    Some(inner) => {
                        let v = match &inner.value {
                            Some(v) => v.clone(),
                            None => inner.default.clone(),
                        };
                        Ok(ConfigDataType::Double(v))
                    },
                    None => match &self.string {
                        Some(inner) => {
                            let v = match &inner.value {
                                Some(v) => v.clone(),
                                None => inner.default.clone(),
                            };
                            Ok(ConfigDataType::String(v))
                        },
                        None => match &self.enumeration {
                            Some(inner) => {
                                let idx = match inner.value {
                                    Some(v) => v,
                                    None => inner.default,
                                };
                                if (idx as usize) < inner.members.len() {
                                    Ok(
                                        ConfigDataType::Enum(
                                            inner.members[idx as usize].content.clone(),
                                        ),
                                    )
                                } else {
                                    Err(FormatError::EnumIndexOutOfRange(self.key.clone()))
                                }
                            },
                            None => Err(FormatError::NoValueKind(self.key.clone())),
                        },
                    },
                },
            },
        }
    }
}

/// The resolution rule, stated once for every leaf: the override wins where
/// present, the default stands where not, and an enum leaf selects the
/// member at the resolved index.
pub proof fn lemma_resolution_rule(c: GConfig)
    ensures
        c.boolean matches Some(b) ==> resolved_value(c) == Ok::<GConfigData, GFormatError>(
            GConfigData::Boolean(
                if b.value is Some {
                    b.value->0
                } else {
                    b.default
                },
            ),
        ),
        c.integer matches Some(b) ==> (c.boolean is None ==> resolved_value(c) == Ok::<
            GConfigData,
            GFormatError,
        >(
            GConfigData::Integer(
                if b.value is Some {
                    b.value->0
                } else {
                    b.default
                },
            ),
        )),
        c.double matches Some(b) ==> (c.boolean is None && c.integer is None ==> resolved_value(c)
            == Ok::<GConfigData, GFormatError>(
            GConfigData::Double(
                if b.value is Some {
                    b.value->0
                } else {
                    b.default
                },
            ),
        )),
        c.string matches Some(b) ==> (c.boolean is None && c.integer is None && c.double is None
            ==> resolved_value(c) == Ok::<GConfigData, GFormatError>(
            GConfigData::String(
                if b.value is Some {
                    b.value->0
                } else {
                    b.default
                },
            ),
        )),
        c.enumeration matches Some(e) ==> (c.boolean is None && c.integer is None && c.double
            is None && c.string is None ==> {
            let idx = if e.value is Some {
                e.value->0
            } else {
                e.default
            };
            resolved_value(c) == if (idx as int) < e.members.len() {
                Ok::<GConfigData, GFormatError>(GConfigData::Enum(e.members[idx as int].content))
            } else {
                Err::<GConfigData, GFormatError>(GFormatError::EnumIndexOutOfRange(c.key))
            }
        }),
{
}

} // verus!
