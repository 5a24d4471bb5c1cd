//! Decoding a parsed element tree against the fixed schema:
//!
//! ```text
//! Konfigurator[name, arch, profile] -> Section*
//! Section[name] -> Section* , Config*
//! Config[key]   -> Boolean | Integer | Double | String | Enum (exactly one)
//! Boolean[default, value?]          Integer[default, value?, min?, max?]
//! Double[default, value?, min?, max?]
//! String[default, value?, min-length?, max-length?]
//! Enum[default, value?] -> Member*
//! ```
//!
//! Every element's attributes must come from its schema line, mandatory
//! attributes must be present, and typed attributes must decode; the first
//! violation in document order is the reported failure. Text content other
//! than a `Member`'s payload is ignored. Duplicated attributes are read at
//! their first occurrence.

use vstd::prelude::*;

use crate::error::{FormatError, GFormatError};
use crate::model::{
    BooleanType, ConfigType, DoubleType, EnumType, GBoolean, GConfig, GDouble, GEnum,
    GInteger, GKonfigurator, GMember, GSection, GStringValue, IntegerType, Konfigurator,
    MemberType, SectionType, StringType, configs_view, members_view, sections_view,
};
use crate::text::{
    is_double_text, parse_bool, parse_bool_text, parse_i32, parse_i32_text, parse_u32,
    parse_u32_text, str_eq, check_double,
};
use crate::xml::{GAttr, GNode, XmlAttr, XmlNode, attrs_view, nodes_view, parse_document, sp_document};

verus! {

/// The value of the first attribute named `name`, if any.
pub open spec fn g_attr(attrs: Seq<GAttr>, name: Seq<char>) -> Option<Seq<char>>
    decreases attrs.len(),
{
    if attrs.len() == 0 {
        None
    } else if attrs[0].name == name {
        Some(attrs[0].value)
    } else {
        g_attr(attrs.drop_first(), name)
    }
}

/// The name of the first attribute not in `allowed`, if any.
pub open spec fn g_unknown_attr(attrs: Seq<GAttr>, allowed: Seq<Seq<char>>) -> Option<Seq<char>>
    decreases attrs.len(),
{
    if attrs.len() == 0 {
        None
    } else if !allowed.contains(attrs[0].name) {
        Some(attrs[0].name)
    } else {
        g_unknown_attr(attrs.drop_first(), allowed)
    }
}

fn get_attr(attrs: &Vec<XmlAttr>, name: &str) -> (r: Option<String>)
    ensures
        match r {
            Some(v) => g_attr(attrs_view(*attrs), name@) == Some(v@),
            None => g_attr(attrs_view(*attrs), name@) is None,
        },
{
    proof {
        assert(attrs_view(*attrs).skip(0) =~= attrs_view(*attrs));
    }
    let mut i: usize = 0;
    while i < attrs.len()
        invariant
            0 <= i <= attrs@.len(),
            g_attr(attrs_view(*attrs), name@) == g_attr(attrs_view(*attrs).skip(i as int), name@),
        decreases attrs@.len() - i,
    {
        proof {
            let av = attrs_view(*attrs);
            assert(av.skip(i as int)[0] == av[i as int]);
            assert(av.skip(i as int).drop_first() =~= av.skip(i as int + 1));
        }
        if str_eq(attrs[i].name.as_str(), name) {
            return Some(attrs[i].value.clone());
        }
        i += 1;
    }
    proof {
        assert(attrs_view(*attrs).skip(attrs@.len() as int) =~= Seq::<GAttr>::empty());
    }
    None
}

fn contains_str(allowed: &Vec<&str>, s: &str) -> (b: bool)
    ensures
        b == allowed.deep_view().contains(s@),
{
    let mut j: usize = 0;
    while j < allowed.len()
        invariant
            0 <= j <= allowed@.len(),
            forall|m: int| 0 <= m < j ==> allowed.deep_view()[m] != s@,
        decreases allowed@.len() - j,
    {
        if str_eq(allowed[j], s) {
            assert(allowed.deep_view()[j as int] == s@);
            return true;
        }
        j += 1;
    }
    false
}

fn find_unknown_attr(attrs: &Vec<XmlAttr>, allowed: &Vec<&str>) -> (r: Option<String>)
    ensures
        match r {
            Some(nm) => g_unknown_attr(attrs_view(*attrs), allowed.deep_view()) == Some(nm@),
            None => g_unknown_attr(attrs_view(*attrs), allowed.deep_view()) is None,
        },
{
    proof {
        assert(attrs_view(*attrs).skip(0) =~= attrs_view(*attrs));
    }
    let mut i: usize = 0;
    while i < attrs.len()
        invariant
            0 <= i <= attrs@.len(),
            g_unknown_attr(attrs_view(*attrs), allowed.deep_view()) == g_unknown_attr(
                attrs_view(*attrs).skip(i as int),
                allowed.deep_view(),
            ),
        decreases attrs@.len() - i,
    {
        proof {
            let av = attrs_view(*attrs);
            assert(av.skip(i as int)[0] == av[i as int]);
            assert(av.skip(i as int).drop_first() =~= av.skip(i as int + 1));
        }
        if !contains_str(allowed, attrs[i].name.as_str()) {
            return Some(attrs[i].name.clone());
        }
        i += 1;
    }
    proof {
        assert(attrs_view(*attrs).skip(attrs@.len() as int) =~= Seq::<GAttr>::empty());
    }
    None
}

/// A mandatory boolean attribute.
pub open spec fn gd_req_bool(attrs: Seq<GAttr>, name: Seq<char>, tag: Seq<char>) -> Result<
    bool,
    GFormatError,
> {
    match g_attr(attrs, name) {
        None => Err(GFormatError::MissingAttribute(tag, name)),
        Some(t) => match parse_bool_text(t) {
            None => Err(GFormatError::BadValue(name, t)),
            Some(v) => Ok(v),
        },
    }
}

/// An optional boolean attribute.
pub open spec fn gd_opt_bool(attrs: Seq<GAttr>, name: Seq<char>) -> Result<
    Option<bool>,
    GFormatError,
> {
    match g_attr(attrs, name) {
        None => Ok(None),
        Some(t) => match parse_bool_text(t) {
            None => Err(GFormatError::BadValue(name, t)),
            Some(v) => Ok(Some(v)),
        },
    }
}

/// A mandatory 32-bit signed attribute.
pub open spec fn gd_req_i32(attrs: Seq<GAttr>, name: Seq<char>, tag: Seq<char>) -> Result<
    i32,
    GFormatError,
> {
    match g_attr(attrs, name) {
        None => Err(GFormatError::MissingAttribute(tag, name)),
        Some(t) => match parse_i32_text(t) {
            None => Err(GFormatError::BadValue(name, t)),
            Some(v) => Ok(v),
        },
    }
}

/// An optional 32-bit signed attribute.
pub open spec fn gd_opt_i32(attrs: Seq<GAttr>, name: Seq<char>) -> Result<
    Option<i32>,
    GFormatError,
> {
    match g_attr(attrs, name) {
        None => Ok(None),
        Some(t) => match parse_i32_text(t) {
            None => Err(GFormatError::BadValue(name, t)),
            Some(v) => Ok(Some(v)),
        },
    }
}

/// A mandatory 32-bit unsigned attribute.
pub open spec fn gd_req_u32(attrs: Seq<GAttr>, name: Seq<char>, tag: Seq<char>) -> Result<
    u32,
    GFormatError,
> {
    match g_attr(attrs, name) {
        None => Err(GFormatError::MissingAttribute(tag, name)),
        Some(t) => match parse_u32_text(t) {
            None => Err(GFormatError::BadValue(name, t)),
            Some(v) => Ok(v),
        },
    }
}

/// An optional 32-bit unsigned attribute.
pub open spec fn gd_opt_u32(attrs: Seq<GAttr>, name: Seq<char>) -> Result<
    Option<u32>,
    GFormatError,
> {
    match g_attr(attrs, name) {
        None => Ok(None),
        Some(t) => match parse_u32_text(t) {
            None => Err(GFormatError::BadValue(name, t)),
            Some(v) => Ok(Some(v)),
        },
    }
}

/// A mandatory floating-point attribute, kept as its literal text.
pub open spec fn gd_req_double(attrs: Seq<GAttr>, name: Seq<char>, tag: Seq<char>) -> Result<
    Seq<char>,
    GFormatError,
> {
    match g_attr(attrs, name) {
        None => Err(GFormatError::MissingAttribute(tag, name)),
        Some(t) => if is_double_text(t) {
            Ok(t)
        } else {
            Err(GFormatError::BadValue(name, t))
        },
    }
}

/// An optional floating-point attribute, kept as its literal text.
pub open spec fn gd_opt_double(attrs: Seq<GAttr>, name: Seq<char>) -> Result<
    Option<Seq<char>>,
    GFormatError,
> {
    match g_attr(attrs, name) {
        None => Ok(None),
        Some(t) => if is_double_text(t) {
            Ok(Some(t))
        } else {
            Err(GFormatError::BadValue(name, t))
        },
    }
}

fn get_req_bool(attrs: &Vec<XmlAttr>, name: &str, tag: &str) -> (r: Result<bool, FormatError>)
    ensures
        match r {
            Ok(v) => gd_req_bool(attrs_view(*attrs), name@, tag@) == Ok::<bool, GFormatError>(v),
            Err(e) => gd_req_bool(attrs_view(*attrs), name@, tag@) == Err::<bool, GFormatError>(
                e@,
            ),
        },
{
    match get_attr(attrs, name) {
        None => Err(
            FormatError::MissingAttribute(String::from_str(tag), String::from_str(name)),
        ),
        Some(t) => match parse_bool(t.as_str()) {
            None => Err(FormatError::BadValue(String::from_str(name), t)),
            Some(v) => Ok(v),
        },
    }
}

fn get_opt_bool(attrs: &Vec<XmlAttr>, name: &str) -> (r: Result<Option<bool>, FormatError>)
    ensures
        match r {
            Ok(v) => gd_opt_bool(attrs_view(*attrs), name@) == Ok::<Option<bool>, GFormatError>(
                v,
            ),
            Err(e) => gd_opt_bool(attrs_view(*attrs), name@) == Err::<Option<bool>, GFormatError>(
                e@,
            ),
        },
{
    match get_attr(attrs, name) {
        None => Ok(None),
        Some(t) => match parse_bool(t.as_str()) {
            None => Err(FormatError::BadValue(String::from_str(name), t)),
            Some(v) => Ok(Some(v)),
        },
    }
}

fn get_req_i32(attrs: &Vec<XmlAttr>, name: &str, tag: &str) -> (r: Result<i32, FormatError>)
    ensures
        match r {
            Ok(v) => gd_req_i32(attrs_view(*attrs), name@, tag@) == Ok::<i32, GFormatError>(v),
            Err(e) => gd_req_i32(attrs_view(*attrs), name@, tag@) == Err::<i32, GFormatError>(e@),
        },
{
    match get_attr(attrs, name) {
        None => Err(
            FormatError::MissingAttribute(String::from_str(tag), String::from_str(name)),
        ),
        Some(t) => match parse_i32(t.as_str()) {
            None => Err(FormatError::BadValue(String::from_str(name), t)),
            Some(v) => Ok(v),
        },
    }
}

fn get_opt_i32(attrs: &Vec<XmlAttr>, name: &str) -> (r: Result<Option<i32>, FormatError>)
    ensures
        match r {
            Ok(v) => gd_opt_i32(attrs_view(*attrs), name@) == Ok::<Option<i32>, GFormatError>(v),
            Err(e) => gd_opt_i32(attrs_view(*attrs), name@) == Err::<Option<i32>, GFormatError>(
                e@,
            ),
        },
{
    match get_attr(attrs, name) {
        None => Ok(None),
        Some(t) => match parse_i32(t.as_str()) {
            None => Err(FormatError::BadValue(String::from_str(name), t)),
            Some(v) => Ok(Some(v)),
        },
    }
}

fn get_req_u32(attrs: &Vec<XmlAttr>, name: &str, tag: &str) -> (r: Result<u32, FormatError>)
    ensures
        match r {
            Ok(v) => gd_req_u32(attrs_view(*attrs), name@, tag@) == Ok::<u32, GFormatError>(v),
            Err(e) => gd_req_u32(attrs_view(*attrs), name@, tag@) == Err::<u32, GFormatError>(e@),
        },
{
    match get_attr(attrs, name) {
        None => Err(
            FormatError::MissingAttribute(String::from_str(tag), String::from_str(name)),
        ),
        Some(t) => match parse_u32(t.as_str()) {
            None => Err(FormatError::BadValue(String::from_str(name), t)),
            Some(v) => Ok(v),
        },
    }
}

fn get_opt_u32(attrs: &Vec<XmlAttr>, name: &str) -> (r: Result<Option<u32>, FormatError>)
    ensures
        match r {
            Ok(v) => gd_opt_u32(attrs_view(*attrs), name@) == Ok::<Option<u32>, GFormatError>(v),
            Err(e) => gd_opt_u32(attrs_view(*attrs), name@) == Err::<Option<u32>, GFormatError>(
                e@,
            ),
        },
{
    match get_attr(attrs, name) {
        None => Ok(None),
        Some(t) => match parse_u32(t.as_str()) {
            None => Err(FormatError::BadValue(String::from_str(name), t)),
            Some(v) => Ok(Some(v)),
        },
    }
}

fn get_req_double(attrs: &Vec<XmlAttr>, name: &str, tag: &str) -> (r: Result<String, FormatError>)
    ensures
        match r {
            Ok(v) => gd_req_double(attrs_view(*attrs), name@, tag@) == Ok::<
                Seq<char>,
                GFormatError,
            >(v@),
            Err(e) => gd_req_double(attrs_view(*attrs), name@, tag@) == Err::<
                Seq<char>,
                GFormatError,
            >(e@),
        },
{
    match get_attr(attrs, name) {
        None => Err(
            FormatError::MissingAttribute(String::from_str(tag), String::from_str(name)),
        ),
        Some(t) => if check_double(t.as_str()) {
            Ok(t)
        } else {
            Err(FormatError::BadValue(String::from_str(name), t))
        },
    }
}

fn get_opt_double(attrs: &Vec<XmlAttr>, name: &str) -> (r: Result<Option<String>, FormatError>)
    ensures
        match r {
            Ok(v) => gd_opt_double(attrs_view(*attrs), name@) == Ok::<
                Option<Seq<char>>,
                GFormatError,
            >(crate::model::opt_str_view(v)),
            Err(e) => gd_opt_double(attrs_view(*attrs), name@) == Err::<
                Option<Seq<char>>,
                GFormatError,
            >(e@),
        },
{
    match get_attr(attrs, name) {
        None => Ok(None),
        Some(t) => if check_double(t.as_str()) {
            Ok(Some(t))
        } else {
            Err(FormatError::BadValue(String::from_str(name), t))
        },
    }
}

/// The first child of `n`, as the payload of an `UnknownChild` failure, when
/// a leaf element must have none.
pub open spec fn gd_no_children(n: GNode, tag: Seq<char>) -> Option<GFormatError> {
    if n.children.len() > 0 {
        Some(GFormatError::UnknownChild(tag, n.children[0].name))
    } else {
        None
    }
}

/// A `Boolean` element.
pub open spec fn gd_boolean(n: GNode) -> Result<GBoolean, GFormatError> {
    match g_unknown_attr(n.attrs, seq!["default"@, "value"@]) {
        Some(a) => Err(GFormatError::UnknownAttribute("Boolean"@, a)),
        None => match gd_no_children(n, "Boolean"@) {
            Some(e) => Err(e),
            None => match gd_req_bool(n.attrs, "default"@, "Boolean"@) {
                Err(e) => Err(e),
                Ok(d) => match gd_opt_bool(n.attrs, "value"@) {
                    Err(e) => Err(e),
                    Ok(v) => Ok(GBoolean { default: d, value: v }),
                },
            },
        },
    }
}

fn decode_boolean(n: &XmlNode) -> (r: Result<BooleanType, FormatError>)
    ensures
        match r {
            Ok(b) => gd_boolean(n@) == Ok::<GBoolean, GFormatError>(b@),
            Err(e) => gd_boolean(n@) == Err::<GBoolean, GFormatError>(e@),
        },
{
    proof {
        assert(attrs_view(n.attrs) =~= n@.attrs);
        assert(nodes_view(n.children) =~= n@.children);
    }
    let allowed: Vec<&str> = vec!["default", "value"];
    proof {
        assert(allowed.deep_view() =~= seq!["default"@, "value"@]);
    }
    if let Some(a) = find_unknown_attr(&n.attrs, &allowed) {
        return Err(FormatError::UnknownAttribute(String::from_str("Boolean"), a));
    }
    if n.children.len() > 0 {
        return Err(
            FormatError::UnknownChild(String::from_str("Boolean"), n.children[0].name.clone()),
        );
    }
    let d = match get_req_bool(&n.attrs, "default", "Boolean") {
        Err(e) => {
            return Err(e);
        },
        Ok(d) => d,
    };
    let v = match get_opt_bool(&n.attrs, "value") {
        Err(e) => {
            return Err(e);
        },
        Ok(v) => v,
    };
    Ok(BooleanType { default: d, value: v })
}

/// An `Integer` element.
pub open spec fn gd_integer(n: GNode) -> Result<GInteger, GFormatError> {
    match g_unknown_attr(n.attrs, seq!["default"@, "value"@, "min"@, "max"@]) {
        Some(a) => Err(GFormatError::UnknownAttribute("Integer"@, a)),
        None => match gd_no_children(n, "Integer"@) {
            Some(e) => Err(e),
            None => match gd_req_i32(n.attrs, "default"@, "Integer"@) {
                Err(e) => Err(e),
                Ok(d) => match gd_opt_i32(n.attrs, "value"@) {
                    Err(e) => Err(e),
                    Ok(v) => match gd_opt_i32(n.attrs, "min"@) {
                        Err(e) => Err(e),
                        Ok(mn) => match gd_opt_i32(n.attrs, "max"@) {
                            Err(e) => Err(e),
                            Ok(mx) => Ok(GInteger { default: d, value: v, min: mn, max: mx }),
                        },
                    },
                },
            },
        },
    }
}

fn decode_integer(n: &XmlNode) -> (r: Result<IntegerType, FormatError>)
    ensures
        match r {
            Ok(b) => gd_integer(n@) == Ok::<GInteger, GFormatError>(b@),
            Err(e) => gd_integer(n@) == Err::<GInteger, GFormatError>(e@),
        },
{
    proof {
        assert(attrs_view(n.attrs) =~= n@.attrs);
        assert(nodes_view(n.children) =~= n@.children);
    }
    let allowed: Vec<&str> = vec!["default", "value", "min", "max"];
    proof {
        assert(allowed.deep_view() =~= seq!["default"@, "value"@, "min"@, "max"@]);
    }
    if let Some(a) = find_unknown_attr(&n.attrs, &allowed) {
        return Err(FormatError::UnknownAttribute(String::from_str("Integer"), a));
    }
    if n.children.len() > 0 {
        return Err(
            FormatError::UnknownChild(String::from_str("Integer"), n.children[0].name.clone()),
        );
    }
    let d = match get_req_i32(&n.attrs, "default", "Integer") {
        Err(e) => {
            return Err(e);
        },
        Ok(d) => d,
    };
    let v = match get_opt_i32(&n.attrs, "value") {
        Err(e) => {
            return Err(e);
        },
        Ok(v) => v,
    };
    let mn = match get_opt_i32(&n.attrs, "min") {
        Err(e) => {
            return Err(e);
        },
        Ok(v) => v,
    };
    let mx = match get_opt_i32(&n.attrs, "max") {
        Err(e) => {
            return Err(e);
        },
        Ok(v) => v,
    };
    Ok(IntegerType { default: d, value: v, min: mn, max: mx })
}

/// A `Double` element.
pub open spec fn gd_double(n: GNode) -> Result<GDouble, GFormatError> {
    match g_unknown_attr(n.attrs, seq!["default"@, "value"@, "min"@, "max"@]) {
        Some(a) => Err(GFormatError::UnknownAttribute("Double"@, a)),
        None => match gd_no_children(n, "Double"@) {
            Some(e) => Err(e),
            None => match gd_req_double(n.attrs, "default"@, "Double"@) {
                Err(e) => Err(e),
                Ok(d) => match gd_opt_double(n.attrs, "value"@) {
                    Err(e) => Err(e),
                    Ok(v) => match gd_opt_double(n.attrs, "min"@) {
                        Err(e) => Err(e),
                        Ok(mn) => match gd_opt_double(n.attrs, "max"@) {
                            Err(e) => Err(e),
                            Ok(mx) => Ok(GDouble { default: d, value: v, min: mn, max: mx }),
                        },
                    },
                },
            },
        },
    }
}

fn decode_double(n: &XmlNode) -> (r: Result<DoubleType, FormatError>)
    ensures
        match r {
            Ok(b) => gd_double(n@) == Ok::<GDouble, GFormatError>(b@),
            Err(e) => gd_double(n@) == Err::<GDouble, GFormatError>(e@),
        },
{
    proof {
        assert(attrs_view(n.attrs) =~= n@.attrs);
        assert(nodes_view(n.children) =~= n@.children);
    }
    let allowed: Vec<&str> = vec!["default", "value", "min", "max"];
    proof {
        assert(allowed.deep_view() =~= seq!["default"@, "value"@, "min"@, "max"@]);
    }
    if let Some(a) = find_unknown_attr(&n.attrs, &allowed) {
        return Err(FormatError::UnknownAttribute(String::from_str("Double"), a));
    }
    if n.children.len() > 0 {
        return Err(
            FormatError::UnknownChild(String::from_str("Double"), n.children[0].name.clone()),
        );
    }
    let d = match get_req_double(&n.attrs, "default", "Double") {
        Err(e) => {
            return Err(e);
        },
        Ok(d) => d,
    };
    let v = match get_opt_double(&n.attrs, "value") {
        Err(e) => {
            return Err(e);
        },
        Ok(v) => v,
    };
    let mn = match get_opt_double(&n.attrs, "min") {
        Err(e) => {
            return Err(e);
        },
        Ok(v) => v,
    };
    let mx = match get_opt_double(&n.attrs, "max") {
        Err(e) => {
            return Err(e);
        },
        Ok(v) => v,
    };
    Ok(DoubleType { default: d, value: v, min: mn, max: mx })
}

/// A `String` element.
pub open spec fn gd_string(n: GNode) -> Result<GStringValue, GFormatError> {
    match g_unknown_attr(n.attrs, seq!["default"@, "value"@, "min-length"@, "max-length"@]) {
        Some(a) => Err(GFormatError::UnknownAttribute("String"@, a)),
        None => match gd_no_children(n, "String"@) {
            Some(e) => Err(e),
            None => match g_attr(n.attrs, "default"@) {
                None => Err(GFormatError::MissingAttribute("String"@, "default"@)),
                Some(d) => match gd_opt_u32(n.attrs, "min-length"@) {
                    Err(e) => Err(e),
                    Ok(mn) => match gd_opt_u32(n.attrs, "max-length"@) {
                        Err(e) => Err(e),
                        Ok(mx) => Ok(
                            GStringValue {
                                default: d,
                                value: g_attr(n.attrs, "value"@),
                                min_length: mn,
                                max_length: mx,
                            },
                        ),
                    },
                },
            },
        },
    }
}

fn decode_string(n: &XmlNode) -> (r: Result<StringType, FormatError>)
    ensures
        match r {
            Ok(b) => gd_string(n@) == Ok::<GStringValue, GFormatError>(b@),
            Err(e) => gd_string(n@) == Err::<GStringValue, GFormatError>(e@),
        },
{
    proof {
        assert(attrs_view(n.attrs) =~= n@.attrs);
        assert(nodes_view(n.children) =~= n@.children);
    }
    let allowed: Vec<&str> = vec!["default", "value", "min-length", "max-length"];
    proof {
        assert(allowed.deep_view() =~= seq!["default"@, "value"@, "min-length"@, "max-length"@]);
    }
    if let Some(a) = find_unknown_attr(&n.attrs, &allowed) {
        return Err(FormatError::UnknownAttribute(String::from_str("String"), a));
    }
    if n.children.len() > 0 {
        return Err(
            FormatError::UnknownChild(String::from_str("String"), n.children[0].name.clone()),
        );
    }
    let d = match get_attr(&n.attrs, "default") {
        None => {
            return Err(
                FormatError::MissingAttribute(
                    String::from_str("String"),
                    String::from_str("default"),
                ),
            );
        },
        Some(d) => d,
    };
    let mn = match get_opt_u32(&n.attrs, "min-length") {
        Err(e) => {
            return Err(e);
        },
        Ok(v) => v,
    };
    let mx = match get_opt_u32(&n.attrs, "max-length") {
        Err(e) => {
            return Err(e);
        },
        Ok(v) => v,
    };
    let v = get_attr(&n.attrs, "value");
    Ok(StringType { default: d, value: v, min_length: mn, max_length: mx })
}

/// The ordered members of an `Enum` element: every child must be a `Member`
/// carrying neither attributes nor children; its payload is its text.
pub open spec fn gd_members(children: Seq<GNode>) -> Result<Seq<GMember>, GFormatError>
    decreases children.len(),
{
    if children.len() == 0 {
        Ok(Seq::empty())
    } else {
        let c0 = children[0];
        if c0.name != "Member"@ {
            Err(GFormatError::UnknownChild("Enum"@, c0.name))
        } else if c0.attrs.len() > 0 {
            Err(GFormatError::UnknownAttribute("Member"@, c0.attrs[0].name))
        } else if c0.children.len() > 0 {
            Err(GFormatError::UnknownChild("Member"@, c0.children[0].name))
        } else {
            match gd_members(children.drop_first()) {
                Err(e) => Err(e),
                Ok(rest) => Ok(seq![GMember { content: c0.text }] + rest),
            }
        }
    }
}

fn decode_members(children: &Vec<XmlNode>) -> (r: Result<Vec<MemberType>, FormatError>)
    ensures
        match r {
            Ok(ms) => gd_members(nodes_view(*children)) == Ok::<Seq<GMember>, GFormatError>(
                members_view(ms),
            ),
            Err(e) => gd_members(nodes_view(*children)) == Err::<Seq<GMember>, GFormatError>(e@),
        },
{
    proof {
        assert(nodes_view(*children).skip(0) =~= nodes_view(*children));
    }
    let mut acc: Vec<MemberType> = Vec::new();
    let mut i: usize = 0;
    while i < children.len()
        invariant
            0 <= i <= children@.len(),
            (match gd_members(nodes_view(*children).skip(i as int)) {
                Ok(rest) => gd_members(nodes_view(*children)) == Ok::<Seq<GMember>, GFormatError>(
                    members_view(acc) + rest,
                ),
                Err(e) => gd_members(nodes_view(*children)) == Err::<Seq<GMember>, GFormatError>(
                    e,
                ),
            }),
        decreases children@.len() - i,
    {
        proof {
            let cv = nodes_view(*children);
            assert(cv.skip(i as int)[0] == cv[i as int]);
            assert(cv.skip(i as int).drop_first() =~= cv.skip(i as int + 1));
        }
        let child = &children[i];
        if !str_eq(child.name.as_str(), "Member") {
            return Err(FormatError::UnknownChild(String::from_str("Enum"), child.name.clone()));
        }
        if child.attrs.len() > 0 {
            proof {
                assert(child@.attrs[0] == child.attrs[0]@);
            }
            return Err(
                FormatError::UnknownAttribute(
                    String::from_str("Member"),
                    child.attrs[0].name.clone(),
                ),
            );
        }
        if child.children.len() > 0 {
            proof {
                assert(child@.children[0] == child.children[0]@);
            }
            return Err(
                FormatError::UnknownChild(
                    String::from_str("Member"),
                    child.children[0].name.clone(),
                ),
            );
        }
        let ghost prev = members_view(acc);
        acc.push(MemberType { content: child.text.clone() });
        proof {
            assert(members_view(acc) =~= prev + seq![GMember { content: child@.text }]);
            assert(forall|rest: Seq<GMember>|
                (prev + (seq![GMember { content: child@.text }] + rest)) =~= (prev + seq![
                    GMember { content: child@.text },
                ]) + rest);
        }
        i += 1;
    }
    proof {
        assert(nodes_view(*children).skip(children@.len() as int) =~= Seq::<GNode>::empty());
        assert(members_view(acc) + Seq::<GMember>::empty() =~= members_view(acc));
    }
    Ok(acc)
}

/// An `Enum` element.
pub open spec fn gd_enum(n: GNode) -> Result<GEnum, GFormatError> {
    match g_unknown_attr(n.attrs, seq!["default"@, "value"@]) {
        Some(a) => Err(GFormatError::UnknownAttribute("Enum"@, a)),
        None => match gd_req_u32(n.attrs, "default"@, "Enum"@) {
            Err(e) => Err(e),
            Ok(d) => match gd_opt_u32(n.attrs, "value"@) {
                Err(e) => Err(e),
                Ok(v) => match gd_members(n.children) {
                    Err(e) => Err(e),
                    Ok(ms) => Ok(GEnum { default: d, value: v, members: ms }),
                },
            },
        },
    }
}

fn decode_enum(n: &XmlNode) -> (r: Result<EnumType, FormatError>)
    ensures
        match r {
            Ok(b) => gd_enum(n@) == Ok::<GEnum, GFormatError>(b@),
            Err(e) => gd_enum(n@) == Err::<GEnum, GFormatError>(e@),
        },
{
    proof {
        assert(attrs_view(n.attrs) =~= n@.attrs);
        assert(nodes_view(n.children) =~= n@.children);
    }
    let allowed: Vec<&str> = vec!["default", "value"];
    proof {
        assert(allowed.deep_view() =~= seq!["default"@, "value"@]);
    }
    if let Some(a) = find_unknown_attr(&n.attrs, &allowed) {
        return Err(FormatError::UnknownAttribute(String::from_str("Enum"), a));
    }
    let d = match get_req_u32(&n.attrs, "default", "Enum") {
        Err(e) => {
            return Err(e);
        },
        Ok(d) => d,
    };
    let v = match get_opt_u32(&n.attrs, "value") {
        Err(e) => {
            return Err(e);
        },
        Ok(v) => v,
    };
    let ms = match decode_members(&n.children) {
        Err(e) => {
            return Err(e);
        },
        Ok(ms) => ms,
    };
    let out = EnumType { default: d, value: v, members: ms };
    proof {
        assert(members_view(out.members) =~= out@.members);
    }
    Ok(out)
}

/// Whether any value slot of `acc` is already populated.
pub open spec fn g_slot_filled(acc: GConfig) -> bool {
    acc.boolean is Some || acc.integer is Some || acc.double is Some || acc.string is Some
        || acc.enumeration is Some
}

/// Folds the children of a `Config` into its five value slots; a second
/// populated slot of any kind is a failure, as is a child outside the five.
pub open spec fn gd_config_slots(key: Seq<char>, children: Seq<GNode>, acc: GConfig) -> Result<
    GConfig,
    GFormatError,
>
    decreases children.len(),
{
    if children.len() == 0 {
        Ok(acc)
    } else {
        let c0 = children[0];
        if c0.name == "Boolean"@ {
            if g_slot_filled(acc) {
                Err(GFormatError::ManyValueKinds(key))
            } else {
                match gd_boolean(c0) {
                    Err(e) => Err(e),
                    Ok(b) => gd_config_slots(
                        key,
                        children.drop_first(),
                        GConfig { boolean: Some(b), ..acc },
                    ),
                }
            }
        } else if c0.name == "Integer"@ {
            if g_slot_filled(acc) {
                Err(GFormatError::ManyValueKinds(key))
            } else {
                match gd_integer(c0) {
                    Err(e) => Err(e),
                    Ok(b) => gd_config_slots(
                        key,
                        children.drop_first(),
                        GConfig { integer: Some(b), ..acc },
                    ),
                }
            }
        } else if c0.name == "Double"@ {
            if g_slot_filled(acc) {
                Err(GFormatError::ManyValueKinds(key))
            } else {
                match gd_double(c0) {
                    Err(e) => Err(e),
                    Ok(b) => gd_config_slots(
                        key,
                        children.drop_first(),
                        GConfig { double: Some(b), ..acc },
                    ),
                }
            }
        } else if c0.name == "String"@ {
            if g_slot_filled(acc) {
                Err(GFormatError::ManyValueKinds(key))
            } else {
                match gd_string(c0) {
                    Err(e) => Err(e),
                    Ok(b) => gd_config_slots(
                        key,
                        children.drop_first(),
                        GConfig { string: Some(b), ..acc },
                    ),
                }
            }
        } else if c0.name == "Enum"@ {
            if g_slot_filled(acc) {
                Err(GFormatError::ManyValueKinds(key))
            } else {
                match gd_enum(c0) {
                    Err(e) => Err(e),
                    Ok(b) => gd_config_slots(
                        key,
                        children.drop_first(),
                        GConfig { enumeration: Some(b), ..acc },
                    ),
                }
            }
        } else {
            Err(GFormatError::UnknownChild("Config"@, c0.name))
        }
    }
}

/// A `Config` element: its key, and exactly one populated value kind.
pub open spec fn gd_config(n: GNode) -> Result<GConfig, GFormatError> {
    match g_unknown_attr(n.attrs, seq!["key"@]) {
        Some(a) => Err(GFormatError::UnknownAttribute("Config"@, a)),
        None => match g_attr(n.attrs, "key"@) {
            None => Err(GFormatError::MissingAttribute("Config"@, "key"@)),
            Some(key) => match gd_config_slots(
                key,
                n.children,
                GConfig {
                    key,
                    boolean: None,
                    integer: None,
                    double: None,
                    string: None,
                    enumeration: None,
                },
            ) {
                Err(e) => Err(e),
                Ok(c) => if g_slot_filled(c) {
                    Ok(c)
                } else {
                    Err(GFormatError::NoValueKind(key))
                },
            },
        },
    }
}

#[verifier::rlimit(60)]
fn decode_config(n: &XmlNode) -> (r: Result<ConfigType, FormatError>)
    ensures
        match r {
            Ok(c) => gd_config(n@) == Ok::<GConfig, GFormatError>(c@),
            Err(e) => gd_config(n@) == Err::<GConfig, GFormatError>(e@),
        },
{
    proof {
        assert(attrs_view(n.attrs) =~= n@.attrs);
        assert(nodes_view(n.children) =~= n@.children);
    }
    let allowed: Vec<&str> = vec!["key"];
    proof {
        assert(allowed.deep_view() =~= seq!["key"@]);
    }
    if let Some(a) = find_unknown_attr(&n.attrs, &allowed) {
        return Err(FormatError::UnknownAttribute(String::from_str("Config"), a));
    }
    let key = match get_attr(&n.attrs, "key") {
        None => {
            return Err(
                FormatError::MissingAttribute(String::from_str("Config"), String::from_str("key")),
            );
        },
        Some(k) => k,
    };
    let mut cfg = ConfigType {
        key,
        boolean: None,
        integer: None,
        double: None,
        string: None,
        enumeration: None,
    };
    proof {
        assert(nodes_view(n.children).skip(0) =~= nodes_view(n.children));
    }
    let mut i: usize = 0;
    while i < n.children.len()
        invariant
            0 <= i <= n.children@.len(),
            attrs_view(n.attrs) == n@.attrs,
            nodes_view(n.children) == n@.children,
            n.children@.len() == n@.children.len(),
            g_unknown_attr(n@.attrs, seq!["key"@]) is None,
            g_attr(n@.attrs, "key"@) == Some(cfg@.key),
            (match gd_config_slots(cfg@.key, nodes_view(n.children).skip(i as int), cfg@) {
                Ok(c) => gd_config_slots(
                    cfg@.key,
                    nodes_view(n.children),
                    GConfig {
                        key: cfg@.key,
                        boolean: None,
                        integer: None,
                        double: None,
                        string: None,
                        enumeration: None,
                    },
                ) == Ok::<GConfig, GFormatError>(c),
                Err(e) => gd_config_slots(
                    cfg@.key,
                    nodes_view(n.children),
                    GConfig {
                        key: cfg@.key,
                        boolean: None,
                        integer: None,
                        double: None,
                        string: None,
                        enumeration: None,
                    },
                ) == Err::<GConfig, GFormatError>(e),
            }),
        decreases n.children@.len() - i,
    {
        proof {
            let cv = nodes_view(n.children);
            assert(cv.skip(i as int)[0] == cv[i as int]);
            assert(cv.skip(i as int).drop_first() =~= cv.skip(i as int + 1));
        }
        let child = &n.children[i];
        let filled = cfg.boolean.is_some() || cfg.integer.is_some() || cfg.double.is_some()
            || cfg.string.is_some() || cfg.enumeration.is_some();
        if str_eq(child.name.as_str(), "Boolean") {
            if filled {
                return Err(FormatError::ManyValueKinds(cfg.key));
            }
            match decode_boolean(child) {
                Err(e) => {
                    return Err(e);
                },
                Ok(b) => {
                    cfg.boolean = Some(b);
                },
            }
        } else if str_eq(child.name.as_str(), "Integer") {
            if filled {
                return Err(FormatError::ManyValueKinds(cfg.key));
            }
            match decode_integer(child) {
                Err(e) => {
                    return Err(e);
                },
                Ok(b) => {
                    cfg.integer = Some(b);
                },
            }
        } else if str_eq(child.name.as_str(), "Double") {
            if filled {
                return Err(FormatError::ManyValueKinds(cfg.key));
            }
            match decode_double(child) {
                Err(e) => {
                    return Err(e);
                },
                Ok(b) => {
                    cfg.double = Some(b);
                },
            }
        } else if str_eq(child.name.as_str(), "String") {
            if filled {
                return Err(FormatError::ManyValueKinds(cfg.key));
            }
            match decode_string(child) {
                Err(e) => {
                    return Err(e);
                },
                Ok(b) => {
                    cfg.string = Some(b);
                },
            }
        } else if str_eq(child.name.as_str(), "Enum") {
            if filled {
                return Err(FormatError::ManyValueKinds(cfg.key));
            }
            match decode_enum(child) {
                Err(e) => {
                    return Err(e);
                },
                Ok(b) => {
                    cfg.enumeration = Some(b);
                },
            }
        } else {
            return Err(FormatError::UnknownChild(String::from_str("Config"), child.name.clone()));
        }
        i += 1;
    }
    proof {
        assert(nodes_view(n.children).skip(n.children@.len() as int) =~= Seq::<GNode>::empty());
    }
    let filled = cfg.boolean.is_some() || cfg.integer.is_some() || cfg.double.is_some()
        || cfg.string.is_some() || cfg.enumeration.is_some();
    if filled {
        Ok(cfg)
    } else {
        Err(FormatError::NoValueKind(cfg.key))
    }
}

/// Folds the children of a `Section` into nested sections and config
/// leaves, each list in document order.
pub open spec fn gd_section_items(children: Seq<GNode>) -> Result<
    (Seq<GSection>, Seq<GConfig>),
    GFormatError,
>
    decreases children, 0int,
{
    if children.len() == 0 {
        Ok((Seq::empty(), Seq::empty()))
    } else {
        let c0 = children[0];
        if c0.name == "Section"@ {
            match gd_section(c0) {
                Err(e) => Err(e),
                Ok(sec) => match gd_section_items(children.drop_first()) {
                    Err(e) => Err(e),
                    Ok(rest) => Ok((seq![sec] + rest.0, rest.1)),
                },
            }
        } else if c0.name == "Config"@ {
            match gd_config(c0) {
                Err(e) => Err(e),
                Ok(cfg) => match gd_section_items(children.drop_first()) {
                    Err(e) => Err(e),
                    Ok(rest) => Ok((rest.0, seq![cfg] + rest.1)),
                },
            }
        } else {
            Err(GFormatError::UnknownChild("Section"@, c0.name))
        }
    }
}

/// A `Section` element.
pub open spec fn gd_section(n: GNode) -> Result<GSection, GFormatError>
    decreases n, 1int,
{
    match g_unknown_attr(n.attrs, seq!["name"@]) {
        Some(a) => Err(GFormatError::UnknownAttribute("Section"@, a)),
        None => match g_attr(n.attrs, "name"@) {
            None => Err(GFormatError::MissingAttribute("Section"@, "name"@)),
            Some(name) => match gd_section_items(n.children) {
                Err(e) => Err(e),
                Ok(items) => Ok(GSection { name, sections: items.0, configs: items.1 }),
            },
        },
    }
}

#[verifier::rlimit(60)]
fn decode_section(n: &XmlNode) -> (r: Result<SectionType, FormatError>)
    ensures
        match r {
            Ok(sec) => gd_section(n@) == Ok::<GSection, GFormatError>(sec@),
            Err(e) => gd_section(n@) == Err::<GSection, GFormatError>(e@),
        },
    decreases *n,
{
    proof {
        assert(attrs_view(n.attrs) =~= n@.attrs);
        assert(nodes_view(n.children) =~= n@.children);
    }
    let allowed: Vec<&str> = vec!["name"];
    proof {
        assert(allowed.deep_view() =~= seq!["name"@]);
    }
    if let Some(a) = find_unknown_attr(&n.attrs, &allowed) {
        return Err(FormatError::UnknownAttribute(String::from_str("Section"), a));
    }
    let name = match get_attr(&n.attrs, "name") {
        None => {
            return Err(
                FormatError::MissingAttribute(
                    String::from_str("Section"),
                    String::from_str("name"),
                ),
            );
        },
        Some(v) => v,
    };
    let mut secs: Vec<SectionType> = Vec::new();
    let mut cfgs: Vec<ConfigType> = Vec::new();
    proof {
        assert(nodes_view(n.children).skip(0) =~= nodes_view(n.children));
    }
    let mut i: usize = 0;
    while i < n.children.len()
        invariant
            0 <= i <= n.children@.len(),
            attrs_view(n.attrs) == n@.attrs,
            nodes_view(n.children) == n@.children,
            n.children@.len() == n@.children.len(),
            g_unknown_attr(n@.attrs, seq!["name"@]) is None,
            g_attr(n@.attrs, "name"@) == Some(name@),
            (match gd_section_items(nodes_view(n.children).skip(i as int)) {
                Ok(rest) => gd_section_items(nodes_view(n.children)) == Ok::<
                    (Seq<GSection>, Seq<GConfig>),
                    GFormatError,
                >((sections_view(secs) + rest.0, configs_view(cfgs) + rest.1)),
                Err(e) => gd_section_items(nodes_view(n.children)) == Err::<
                    (Seq<GSection>, Seq<GConfig>),
                    GFormatError,
                >(e),
            }),
        decreases n.children@.len() - i,
    {
        proof {
            let cv = nodes_view(n.children);
            assert(cv.skip(i as int)[0] == cv[i as int]);
            assert(cv.skip(i as int).drop_first() =~= cv.skip(i as int + 1));
        }
        let child = &n.children[i];
        if str_eq(child.name.as_str(), "Section") {
            match decode_section(child) {
                Err(e) => {
                    return Err(e);
                },
                Ok(sec) => {
                    let ghost prev = sections_view(secs);
                    let ghost g = sec@;
                    secs.push(sec);
                    proof {
                        assert(sections_view(secs) =~= prev + seq![g]);
                        assert(forall|rest: Seq<GSection>|
                            (prev + (seq![g] + rest)) =~= (prev + seq![g]) + rest);
                    }
                },
            }
        } else if str_eq(child.name.as_str(), "Config") {
            match decode_config(child) {
                Err(e) => {
                    return Err(e);
                },
                Ok(cfg) => {
                    let ghost prev = configs_view(cfgs);
                    let ghost g = cfg@;
                    cfgs.push(cfg);
                    proof {
                        assert(configs_view(cfgs) =~= prev + seq![g]);
                        assert(forall|rest: Seq<GConfig>|
                            (prev + (seq![g] + rest)) =~= (prev + seq![g]) + rest);
                    }
                },
            }
        } else {
            return Err(
                FormatError::UnknownChild(String::from_str("Section"), child.name.clone()),
            );
        }
        i += 1;
    }
    proof {
        assert(nodes_view(n.children).skip(n.children@.len() as int) =~= Seq::<GNode>::empty());
        assert(sections_view(secs) + Seq::<GSection>::empty() =~= sections_view(secs));
        assert(configs_view(cfgs) + Seq::<GConfig>::empty() =~= configs_view(cfgs));
    }
    let out = SectionType { name, sections: secs, configs: cfgs };
    proof {
        assert(sections_view(out.sections) =~= out@.sections);
        assert(configs_view(out.configs) =~= out@.configs);
    }
    Ok(out)
}

/// The top-level sections of the root element; every child must be a
/// `Section`.
pub open spec fn gd_root_sections(children: Seq<GNode>) -> Result<Seq<GSection>, GFormatError>
    decreases children, 2int,
{
    if children.len() == 0 {
        Ok(Seq::empty())
    } else {
        let c0 = children[0];
        if c0.name == "Section"@ {
            match gd_section(c0) {
                Err(e) => Err(e),
                Ok(sec) => match gd_root_sections(children.drop_first()) {
                    Err(e) => Err(e),
                    Ok(rest) => Ok(seq![sec] + rest),
                },
            }
        } else {
            Err(GFormatError::UnknownChild("Konfigurator"@, c0.name))
        }
    }
}

/// The root element against the schema.
pub open spec fn gd_konfigurator(n: GNode) -> Result<GKonfigurator, GFormatError> {
    if n.name != "Konfigurator"@ {
        Err(GFormatError::WrongRoot(n.name))
    } else {
        match g_unknown_attr(n.attrs, seq!["name"@, "arch"@, "profile"@]) {
            Some(a) => Err(GFormatError::UnknownAttribute("Konfigurator"@, a)),
            None => match g_attr(n.attrs, "name"@) {
                None => Err(GFormatError::MissingAttribute("Konfigurator"@, "name"@)),
                Some(nm) => match g_attr(n.attrs, "arch"@) {
                    None => Err(GFormatError::MissingAttribute("Konfigurator"@, "arch"@)),
                    Some(ar) => match g_attr(n.attrs, "profile"@) {
                        None => Err(GFormatError::MissingAttribute("Konfigurator"@, "profile"@)),
                        Some(pr) => match gd_root_sections(n.children) {
                            Err(e) => Err(e),
                            Ok(ss) => Ok(
                                GKonfigurator { name: nm, arch: ar, profile: pr, sections: ss },
                            ),
                        },
                    },
                },
            },
        }
    }
}

fn decode_konfigurator(n: &XmlNode) -> (r: Result<Konfigurator, FormatError>)
    ensures
        match r {
            Ok(k) => gd_konfigurator(n@) == Ok::<GKonfigurator, GFormatError>(k@),
            Err(e) => gd_konfigurator(n@) == Err::<GKonfigurator, GFormatError>(e@),
        },
{
    proof {
        assert(attrs_view(n.attrs) =~= n@.attrs);
        assert(nodes_view(n.children) =~= n@.children);
    }
    if !str_eq(n.name.as_str(), "Konfigurator") {
        return Err(FormatError::WrongRoot(n.name.clone()));
    }
    let allowed: Vec<&str> = vec!["name", "arch", "profile"];
    proof {
        assert(allowed.deep_view() =~= seq!["name"@, "arch"@, "profile"@]);
    }
    if let Some(a) = find_unknown_attr(&n.attrs, &allowed) {
        return Err(FormatError::UnknownAttribute(String::from_str("Konfigurator"), a));
    }
    let nm = match get_attr(&n.attrs, "name") {
        None => {
            return Err(
                FormatError::MissingAttribute(
                    String::from_str("Konfigurator"),
                    String::from_str("name"),
                ),
            );
        },
        Some(v) => v,
    };
    let ar = match get_attr(&n.attrs, "arch") {
        None => {
            return Err(
                FormatError::MissingAttribute(
                    String::from_str("Konfigurator"),
                    String::from_str("arch"),
                ),
            );
        },
        Some(v) => v,
    };
    let pr = match get_attr(&n.attrs, "profile") {
        None => {
            return Err(
                FormatError::MissingAttribute(
                    String::from_str("Konfigurator"),
                    String::from_str("profile"),
                ),
            );
        },
        Some(v) => v,
    };
    let mut secs: Vec<SectionType> = Vec::new();
    proof {
        assert(nodes_view(n.children).skip(0) =~= nodes_view(n.children));
    }
    let mut i: usize = 0;
    while i < n.children.len()
        invariant
            0 <= i <= n.children@.len(),
            attrs_view(n.attrs) == n@.attrs,
            nodes_view(n.children) == n@.children,
            n.children@.len() == n@.children.len(),
            n@.name == "Konfigurator"@,
            g_unknown_attr(n@.attrs, seq!["name"@, "arch"@, "profile"@]) is None,
            g_attr(n@.attrs, "name"@) == Some(nm@),
            g_attr(n@.attrs, "arch"@) == Some(ar@),
            g_attr(n@.attrs, "profile"@) == Some(pr@),
            (match gd_root_sections(nodes_view(n.children).skip(i as int)) {
                Ok(rest) => gd_root_sections(nodes_view(n.children)) == Ok::<
                    Seq<GSection>,
                    GFormatError,
                >(sections_view(secs) + rest),
                Err(e) => gd_root_sections(nodes_view(n.children)) == Err::<
                    Seq<GSection>,
                    GFormatError,
                >(e),
            }),
        decreases n.children@.len() - i,
    {
        proof {
            let cv = nodes_view(n.children);
            assert(cv.skip(i as int)[0] == cv[i as int]);
            assert(cv.skip(i as int).drop_first() =~= cv.skip(i as int + 1));
        }
        let child = &n.children[i];
        if str_eq(child.name.as_str(), "Section") {
            match decode_section(child) {
                Err(e) => {
                    return Err(e);
                },
                Ok(sec) => {
                    let ghost prev = sections_view(secs);
                    let ghost g = sec@;
                    secs.push(sec);
                    proof {
                        assert(sections_view(secs) =~= prev + seq![g]);
                        assert(forall|rest: Seq<GSection>|
                            (prev + (seq![g] + rest)) =~= (prev + seq![g]) + rest);
                    }
                },
            }
        } else {
            return Err(
                FormatError::UnknownChild(String::from_str("Konfigurator"), child.name.clone()),
            );
        }
        i += 1;
    }
    proof {
        assert(nodes_view(n.children).skip(n.children@.len() as int) =~= Seq::<GNode>::empty());
        assert(sections_view(secs) + Seq::<GSection>::empty() =~= sections_view(secs));
    }
    let out = Konfigurator { name: nm, arch: ar, profile: pr, sections: secs };
    proof {
        assert(sections_view(out.sections) =~= out@.sections);
    }
    Ok(out)
}

/// What a document text denotes: a decoded root, or the first failure —
/// a syntax failure when the carrier grammar is broken, else the first
/// schema violation in document order.
pub open spec fn konfig_of_text(s: Seq<char>) -> Result<GKonfigurator, GFormatError> {
    match sp_document(s) {
        None => Err(GFormatError::Syntax),
        Some(n) => gd_konfigurator(n),
    }
}

impl Konfigurator {
    /// Parses and decodes a whole document text.
    pub fn from_text(text: &str) -> (r: Result<Konfigurator, FormatError>)
        ensures
            match r {
                Ok(k) => konfig_of_text(text@) == Ok::<GKonfigurator, GFormatError>(k@),
                Err(e) => konfig_of_text(text@) == Err::<GKonfigurator, GFormatError>(e@),
            },
    {
        match parse_document(text) {
            None => Err(FormatError::Syntax),
            Some(node) => decode_konfigurator(&node),
        }
    }
}

} // verus!
