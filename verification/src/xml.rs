//! A small document parser for the fixed configuration schema's carrier
//! syntax: elements with attributes, nested elements and text content,
//! optional processing instructions (`<?...?>`) and comments (`<!--...-->`).
//! Entity references are not decoded; attribute values end at the quote that
//! opened them.
//!
//! The grammar is given once, as a deterministic functional parser in spec
//! land (`sp_document` and its helpers); the executable parser returns
//! exactly what the spec parser denotes, so both success and failure are
//! pinned by the contract.

use vstd::prelude::*;

use crate::text::{is_name, is_name_char, is_ws, is_ws_char, push_char};

verus! {

/// Mathematical image of one attribute.
pub struct GAttr {
    pub name: Seq<char>,
    pub value: Seq<char>,
}

/// Mathematical image of one element: its tag name, attributes in document
/// order, child elements in document order, and the concatenation of its
/// direct text content.
pub struct GNode {
    pub name: Seq<char>,
    pub attrs: Seq<GAttr>,
    pub children: Seq<GNode>,
    pub text: Seq<char>,
}

/// One attribute, `name="value"`.
pub struct XmlAttr {
    pub name: String,
    pub value: String,
}

/// One element of the parsed document.
pub struct XmlNode {
    pub name: String,
    pub attrs: Vec<XmlAttr>,
    pub children: Vec<XmlNode>,
    pub text: String,
}

impl View for XmlAttr {
    type V = GAttr;

    open spec fn view(&self) -> GAttr {
        GAttr { name: self.name@, value: self.value@ }
    }
}

/// The element with nothing in it; stands in for an out-of-range index.
pub open spec fn empty_gnode() -> GNode {
    GNode { name: Seq::empty(), attrs: Seq::empty(), children: Seq::empty(), text: Seq::empty() }
}

impl View for XmlNode {
    type V = GNode;

    open spec fn view(&self) -> GNode
        decreases self,
    {
        GNode {
            name: self.name@,
            attrs: Seq::new(self.attrs@.len(), |i: int| self.attrs[i]@),
            children: Seq::new(
                self.children@.len(),
                |i: int|
                    if 0 <= i < self.children@.len() {
                        self.children[i]@
                    } else {
                        empty_gnode()
                    },
            ),
            text: self.text@,
        }
    }
}

/// First position at or after `i` holding a non-whitespace character.
pub open spec fn sp_ws_end(s: Seq<char>, i: int) -> int
    decreases s.len() - i,
{
    if 0 <= i < s.len() && is_ws_char(s[i]) {
        sp_ws_end(s, i + 1)
    } else {
        i
    }
}

/// First position at or after `i` holding a non-name character.
pub open spec fn sp_name_end(s: Seq<char>, i: int) -> int
    decreases s.len() - i,
{
    if 0 <= i < s.len() && is_name_char(s[i]) {
        sp_name_end(s, i + 1)
    } else {
        i
    }
}

/// First position at or after `i` holding `c`, or the length if none does.
pub open spec fn sp_find_char(s: Seq<char>, i: int, c: char) -> int
    decreases s.len() - i,
{
    if 0 <= i < s.len() {
        if s[i] == c {
            i
        } else {
            sp_find_char(s, i + 1, c)
        }
    } else {
        s.len() as int
    }
}

/// Whether `pat` occurs in `s` starting at `i`.
pub open spec fn sp_match_at(s: Seq<char>, pat: Seq<char>, i: int) -> bool {
    0 <= i && i + pat.len() <= s.len() && s.subrange(i, i + pat.len()) == pat
}

/// First position at or after `from` where `pat` occurs, or `-1` if none.
pub open spec fn sp_find(s: Seq<char>, pat: Seq<char>, from: int) -> int
    decreases s.len() - from,
{
    if from < 0 || pat.len() == 0 || from + pat.len() > s.len() {
        -1
    } else if sp_match_at(s, pat, from) {
        from
    } else {
        sp_find(s, pat, from + 1)
    }
}

/// The attribute list inside an open tag, starting at `pos` (just after the
/// tag name or the previous attribute). Stops before the first
/// non-whitespace, non-name character, which the element parser inspects.
pub open spec fn sp_attrs(s: Seq<char>, pos: int) -> Option<(Seq<GAttr>, int)>
    decreases s.len() - pos, 0int,
{
    let p = sp_ws_end(s, pos);
    if !(0 <= p < s.len()) {
        None
    } else if !is_name_char(s[p]) {
        Some((Seq::empty(), p))
    } else {
        let n_end = sp_name_end(s, p);
        let q = sp_ws_end(s, n_end);
        if !(q < s.len() && s[q] == '=') {
            None
        } else {
            let w = sp_ws_end(s, q + 1);
            if !(w < s.len() && (s[w] == '"' || s[w] == '\'')) {
                None
            } else {
                let close = sp_find_char(s, w + 1, s[w]);
                if close >= s.len() || close + 1 <= pos {
                    None
                } else {
                    match sp_attrs(s, close + 1) {
                        Some((rest, e)) => Some(
                            (
                                seq![
                                    GAttr {
                                        name: s.subrange(p, n_end),
                                        value: s.subrange(w + 1, close),
                                    },
                                ] + rest,
                                e,
                            ),
                        ),
                        None => None,
                    }
                }
            }
        }
    }
}

/// One element starting at `pos`, which must hold its `<`. Yields the node
/// and the position just past the closing tag.
pub open spec fn sp_elem(s: Seq<char>, pos: int) -> Option<(GNode, int)>
    decreases s.len() - pos, 2int,
{
    if !(0 <= pos && pos + 1 < s.len() && s[pos] == '<' && is_name_char(s[pos + 1])) {
        None
    } else {
        let n_end = sp_name_end(s, pos + 1);
        if n_end <= pos + 1 {
            None
        } else {
            let name = s.subrange(pos + 1, n_end);
            match sp_attrs(s, n_end) {
                None => None,
                Some((attrs, p)) => {
                    if p + 1 < s.len() && s[p] == '/' && s[p + 1] == '>' {
                        Some(
                            (
                                GNode { name, attrs, children: Seq::empty(), text: Seq::empty() },
                                p + 2,
                            ),
                        )
                    } else if p < s.len() && s[p] == '>' && p + 1 > pos {
                        match sp_items(s, p + 1) {
                            None => None,
                            Some((children, text, q)) => {
                                // q rests on the `<` of a closing tag
                                let c_end = sp_name_end(s, q + 2);
                                if s.subrange(q + 2, c_end) == name {
                                    let r = sp_ws_end(s, c_end);
                                    if r < s.len() && s[r] == '>' {
                                        Some((GNode { name, attrs, children, text }, r + 1))
                                    } else {
                                        None
                                    }
                                } else {
                                    None
                                }
                            },
                        }
                    } else {
                        None
                    }
                },
            }
        }
    }
}

/// The content of an element starting at `pos`: child elements and text,
/// with comments and processing instructions skipped. Ends at the `<` of the
/// enclosing closing tag, which is where the returned position rests.
pub open spec fn sp_items(s: Seq<char>, pos: int) -> Option<(Seq<GNode>, Seq<char>, int)>
    decreases s.len() - pos, 3int,
{
    if !(0 <= pos < s.len()) {
        None
    } else if s[pos] == '<' {
        if pos + 1 < s.len() && s[pos + 1] == '/' {
            Some((Seq::empty(), Seq::empty(), pos))
        } else if pos + 3 < s.len() && s[pos + 1] == '!' && s[pos + 2] == '-' && s[pos + 3]
            == '-' {
            let e = sp_find(s, "-->"@, pos + 4);
            if e < 0 || e + 3 <= pos || e + 3 > s.len() {
                None
            } else {
                sp_items(s, e + 3)
            }
        } else if pos + 1 < s.len() && s[pos + 1] == '?' {
            let e = sp_find(s, "?>"@, pos + 2);
            if e < 0 || e + 2 <= pos || e + 2 > s.len() {
                None
            } else {
                sp_items(s, e + 2)
            }
        } else {
            match sp_elem(s, pos) {
                None => None,
                Some((node, p)) => {
                    if p <= pos || p > s.len() {
                        None
                    } else {
                        match sp_items(s, p) {
                            None => None,
                            Some((children, text, q)) => Some(
                                (seq![node] + children, text, q),
                            ),
                        }
                    }
                },
            }
        }
    } else {
        match sp_items(s, pos + 1) {
            None => None,
            Some((children, text, q)) => Some((children, seq![s[pos]] + text, q)),
        }
    }
}

/// Position of the root element's `<`, after leading whitespace, processing
/// instructions and comments; `None` when what follows is unterminated.
pub open spec fn sp_misc_end(s: Seq<char>, i: int) -> Option<int>
    decreases s.len() - i,
{
    let p = sp_ws_end(s, i);
    if 0 <= p && p + 1 < s.len() && s[p] == '<' && s[p + 1] == '?' {
        let e = sp_find(s, "?>"@, p + 2);
        if e < 0 || e + 2 <= i || e + 2 > s.len() {
            None
        } else {
            sp_misc_end(s, e + 2)
        }
    } else if 0 <= p && p + 3 < s.len() && s[p] == '<' && s[p + 1] == '!' && s[p + 2] == '-' && s[p
        + 3] == '-' {
        let e = sp_find(s, "-->"@, p + 4);
        if e < 0 || e + 3 <= i || e + 3 > s.len() {
            None
        } else {
            sp_misc_end(s, e + 3)
        }
    } else {
        Some(p)
    }
}

/// The whole document: optional leading miscellany, one root element,
/// optional trailing whitespace and miscellany.
pub open spec fn sp_document(s: Seq<char>) -> Option<GNode> {
    match sp_misc_end(s, 0) {
        None => None,
        Some(start) => match sp_elem(s, start) {
            None => None,
            Some((node, p)) => match sp_misc_end(s, p) {
                None => None,
                Some(t) => if t == s.len() {
                    Some(node)
                } else {
                    None
                },
            },
        },
    }
}

/// The views of a parsed attribute list.
pub open spec fn attrs_view(v: Vec<XmlAttr>) -> Seq<GAttr> {
    Seq::new(v@.len(), |i: int| v[i]@)
}

/// The views of a parsed element list.
pub open spec fn nodes_view(v: Vec<XmlNode>) -> Seq<GNode> {
    Seq::new(
        v@.len(),
        |i: int|
            if 0 <= i < v@.len() {
                v[i]@
            } else {
                empty_gnode()
            },
    )
}

pub proof fn lemma_name_end_le(s: Seq<char>, i: int)
    requires
        0 <= i <= s.len(),
    ensures
        i <= sp_name_end(s, i) <= s.len(),
    decreases s.len() - i,
{
    if i < s.len() && is_name_char(s[i]) {
        lemma_name_end_le(s, i + 1);
    }
}

fn ws_end(s: &str, len: usize, i: usize) -> (r: usize)
    requires
        len == s@.len(),
        i <= len,
    ensures
        r as int == sp_ws_end(s@, i as int),
        i <= r <= len,
{
    let mut r = i;
    while r < len && is_ws(s.get_char(r))
        invariant
            i <= r <= len,
            len == s@.len(),
            sp_ws_end(s@, i as int) == sp_ws_end(s@, r as int),
        decreases len - r,
    {
        r += 1;
    }
    r
}

fn name_end(s: &str, len: usize, i: usize) -> (r: usize)
    requires
        len == s@.len(),
        i <= len,
    ensures
        r as int == sp_name_end(s@, i as int),
        i <= r <= len,
{
    let mut r = i;
    while r < len && is_name(s.get_char(r))
        invariant
            i <= r <= len,
            len == s@.len(),
            sp_name_end(s@, i as int) == sp_name_end(s@, r as int),
        decreases len - r,
    {
        r += 1;
    }
    r
}

pub(crate) fn find_char(s: &str, len: usize, i: usize, c: char) -> (r: usize)
    requires
        len == s@.len(),
        i <= len,
    ensures
        r as int == sp_find_char(s@, i as int, c),
        i <= r <= len,
        r < len ==> s@[r as int] == c,
{
    let mut r = i;
    while r < len && s.get_char(r) != c
        invariant
            i <= r <= len,
            len == s@.len(),
            sp_find_char(s@, i as int, c) == sp_find_char(s@, r as int, c),
        decreases len - r,
    {
        r += 1;
    }
    r
}

/// Whether `pat` occurs in `s` starting at `j`.
fn match_at(s: &str, len: usize, pat: &str, pat_len: usize, j: usize) -> (b: bool)
    requires
        len == s@.len(),
        pat_len == pat@.len(),
        j + pat_len <= len,
    ensures
        b == sp_match_at(s@, pat@, j as int),
{
    let mut k: usize = 0;
    while k < pat_len
        invariant
            0 <= k <= pat_len,
            len == s@.len(),
            pat_len == pat@.len(),
            j + pat_len <= len,
            forall|m: int| 0 <= m < k ==> s@[j + m] == pat@[m],
        decreases pat_len - k,
    {
        if s.get_char(j + k) != pat.get_char(k) {
            assert(s@.subrange(j as int, j + pat@.len())[k as int] != pat@[k as int]);
            return false;
        }
        k += 1;
    }
    proof {
        assert(s@.subrange(j as int, j + pat@.len()) =~= pat@);
    }
    true
}

/// First occurrence of `pat` at or after `from`, if any.
pub(crate) fn find_pat(s: &str, len: usize, pat: &str, from: usize) -> (r: Option<usize>)
    requires
        len == s@.len(),
        pat@.len() > 0,
        from <= len,
    ensures
        match r {
            Some(k) => sp_find(s@, pat@, from as int) == k as int && from <= k && k + pat@.len()
                <= len,
            None => sp_find(s@, pat@, from as int) == -1,
        },
{
    let pat_len = pat.unicode_len();
    if pat_len > len || from > len - pat_len {
        return None;
    }
    let mut j = from;
    while j <= len - pat_len
        invariant
            from <= j,
            j <= len - pat_len + 1,
            pat_len == pat@.len(),
            0 < pat_len <= len,
            len == s@.len(),
            sp_find(s@, pat@, from as int) == sp_find(s@, pat@, j as int),
        decreases len - j,
    {
        if match_at(s, len, pat, pat_len, j) {
            return Some(j);
        }
        j += 1;
    }
    None
}

/// The attribute list beginning at `pos`, mirrored on `sp_attrs`.
fn parse_attrs(s: &str, len: usize, pos: usize) -> (r: Option<(Vec<XmlAttr>, usize)>)
    requires
        len == s@.len(),
        pos <= len,
    ensures
        match r {
            Some(ae) => sp_attrs(s@, pos as int) == Some((attrs_view(ae.0), ae.1 as int)) && pos
                <= ae.1 < len,
            None => sp_attrs(s@, pos as int) is None,
        },
{
    let mut acc: Vec<XmlAttr> = Vec::new();
    let mut cur = pos;
    loop
        invariant
            pos <= cur <= len,
            len == s@.len(),
            (match sp_attrs(s@, cur as int) {
                Some(re) => sp_attrs(s@, pos as int) == Some((attrs_view(acc) + re.0, re.1)),
                None => sp_attrs(s@, pos as int) is None,
            }),
        decreases len - cur,
    {
        let p = ws_end(s, len, cur);
        if p >= len {
            return None;
        }
        let c = s.get_char(p);
        if !is_name(c) {
            proof {
                assert(sp_attrs(s@, cur as int) == Some((Seq::<GAttr>::empty(), p as int)));
                assert(attrs_view(acc) + Seq::<GAttr>::empty() =~= attrs_view(acc));
            }
            return Some((acc, p));
        }
        let n_end = name_end(s, len, p);
        let q = ws_end(s, len, n_end);
        if !(q < len && s.get_char(q) == '=') {
            return None;
        }
        let w = ws_end(s, len, q + 1);
        if !(w < len) {
            return None;
        }
        let quote = s.get_char(w);
        if !(quote == '"' || quote == '\'') {
            return None;
        }
        let close = find_char(s, len, w + 1, quote);
        if close >= len {
            return None;
        }
        let attr = XmlAttr {
            name: String::from_str(s.substring_char(p, n_end)),
            value: String::from_str(s.substring_char(w + 1, close)),
        };
        let ghost a = GAttr {
            name: s@.subrange(p as int, n_end as int),
            value: s@.subrange(w + 1, close as int),
        };
        let ghost prev = attrs_view(acc);
        proof {
            assert(attr@ == a);
            assert(match sp_attrs(s@, close + 1) {
                Some(re) => sp_attrs(s@, cur as int) == Some((seq![a] + re.0, re.1)),
                None => sp_attrs(s@, cur as int) is None,
            });
        }
        acc.push(attr);
        proof {
            assert(attrs_view(acc) =~= prev + seq![a]);
            assert(forall|re0: Seq<GAttr>| (prev + (seq![a] + re0)) =~= (prev + seq![a]) + re0);
        }
        cur = close + 1;
    }
}

/// Whether `s[from..to]` equals `t`.
fn substr_eq(s: &str, from: usize, to: usize, t: &str) -> (b: bool)
    requires
        from <= to <= s@.len(),
    ensures
        b == (s@.subrange(from as int, to as int) == t@),
{
    let t_len = t.unicode_len();
    if to - from != t_len {
        return false;
    }
    let mut k: usize = 0;
    while k < t_len
        invariant
            0 <= k <= t_len,
            t_len == t@.len(),
            from + t_len == to,
            to <= s@.len(),
            forall|m: int| 0 <= m < k ==> s@[from + m] == t@[m],
        decreases t_len - k,
    {
        if s.get_char(from + k) != t.get_char(k) {
            assert(s@.subrange(from as int, to as int)[k as int] != t@[k as int]);
            return false;
        }
        k += 1;
    }
    proof {
        assert(s@.subrange(from as int, to as int) =~= t@);
    }
    true
}

/// One element starting at `pos`, mirrored on `sp_elem`.
fn parse_elem(s: &str, len: usize, pos: usize) -> (r: Option<(XmlNode, usize)>)
    requires
        len == s@.len(),
        pos <= len,
    ensures
        match r {
            Some(np) => sp_elem(s@, pos as int) == Some((np.0@, np.1 as int)) && pos < np.1 <= len,
            None => sp_elem(s@, pos as int) is None,
        },
    decreases s@.len() - pos, 2int,
{
    if len - pos < 2 {
        return None;
    }
    if !(s.get_char(pos) == '<' && is_name(s.get_char(pos + 1))) {
        return None;
    }
    let n_end = name_end(s, len, pos + 1);
    proof {
        assert(sp_name_end(s@, pos + 1) == sp_name_end(s@, pos + 2));
        lemma_name_end_le(s@, pos + 2);
    }
    let name = String::from_str(s.substring_char(pos + 1, n_end));
    let (attrs, p) = match parse_attrs(s, len, n_end) {
        None => {
            return None;
        },
        Some(ae) => ae,
    };
    if len - p >= 2 && s.get_char(p) == '/' && s.get_char(p + 1) == '>' {
        let node = XmlNode { name, attrs, children: Vec::new(), text: String::new() };
        proof {
            assert(attrs_view(node.attrs) =~= node@.attrs);
            assert(node@.children =~= Seq::<GNode>::empty());
            assert(node@ == GNode {
                name: s@.subrange(pos + 1, n_end as int),
                attrs: attrs_view(attrs),
                children: Seq::empty(),
                text: Seq::empty(),
            });
        }
        return Some((node, p + 2));
    }
    if s.get_char(p) == '>' {
        let (children, text, q) = match parse_items(s, len, p + 1) {
            None => {
                return None;
            },
            Some(it) => it,
        };
        let c_end = name_end(s, len, q + 2);
        if !substr_eq(s, q + 2, c_end, name.as_str()) {
            return None;
        }
        let rr = ws_end(s, len, c_end);
        if !(rr < len && s.get_char(rr) == '>') {
            return None;
        }
        let node = XmlNode { name, attrs, children, text };
        proof {
            assert(attrs_view(node.attrs) =~= node@.attrs);
            assert(nodes_view(node.children) =~= node@.children);
        }
        return Some((node, rr + 1));
    }
    None
}

/// The content of an element starting at `pos`, mirrored on `sp_items`.
fn parse_items(s: &str, len: usize, pos: usize) -> (r: Option<(Vec<XmlNode>, String, usize)>)
    requires
        len == s@.len(),
        pos <= len,
    ensures
        match r {
            Some(it) => sp_items(s@, pos as int) == Some(
                (nodes_view(it.0), it.1@, it.2 as int),
            ) && pos <= it.2 && it.2 + 1 < len && s@[it.2 as int] == '<' && s@[it.2 + 1] == '/',
            None => sp_items(s@, pos as int) is None,
        },
    decreases s@.len() - pos, 3int,
{
    let mut acc: Vec<XmlNode> = Vec::new();
    let mut text = String::new();
    let mut cur = pos;
    loop
        invariant
            pos <= cur <= len,
            len == s@.len(),
            (match sp_items(s@, cur as int) {
                Some(it) => sp_items(s@, pos as int) == Some(
                    (nodes_view(acc) + it.0, text@ + it.1, it.2),
                ),
                None => sp_items(s@, pos as int) is None,
            }),
        decreases len - cur,
    {
        if cur >= len {
            return None;
        }
        let c = s.get_char(cur);
        if c == '<' {
            let rem = len - cur;
            if rem >= 2 && s.get_char(cur + 1) == '/' {
                proof {
                    assert(sp_items(s@, cur as int) == Some(
                        (Seq::<GNode>::empty(), Seq::<char>::empty(), cur as int),
                    ));
                    assert(nodes_view(acc) + Seq::<GNode>::empty() =~= nodes_view(acc));
                    assert(text@ + Seq::<char>::empty() =~= text@);
                }
                return Some((acc, text, cur));
            }
            if rem > 3 && s.get_char(cur + 1) == '!' && s.get_char(cur + 2) == '-' && s.get_char(
                cur + 3,
            ) == '-' {
                proof {
                    reveal_strlit("-->");
                }
                match find_pat(s, len, "-->", cur + 4) {
                    None => {
                        return None;
                    },
                    Some(e) => {
                        cur = e + 3;
                    },
                }
            } else if rem >= 2 && s.get_char(cur + 1) == '?' {
                proof {
                    reveal_strlit("?>");
                }
                match find_pat(s, len, "?>", cur + 2) {
                    None => {
                        return None;
                    },
                    Some(e) => {
                        cur = e + 2;
                    },
                }
            } else {
                match parse_elem(s, len, cur) {
                    None => {
                        return None;
                    },
                    Some((node, p)) => {
                        let ghost n = node@;
                        let ghost prev = nodes_view(acc);
                        acc.push(node);
                        proof {
                            assert(nodes_view(acc) =~= prev + seq![n]);
                            assert(forall|cs: Seq<GNode>|
                                (prev + (seq![n] + cs)) =~= (prev + seq![n]) + cs);
                        }
                        cur = p;
                    },
                }
            }
        } else {
            proof {
                assert(forall|t0: Seq<char>|
                    (text@ + (seq![s@[cur as int]] + t0)) =~= (text@.push(s@[cur as int])) + t0);
            }
            push_char(&mut text, c);
            cur += 1;
        }
    }
}

/// Position of the root element after leading miscellany, mirrored on
/// `sp_misc_end`.
fn misc_end(s: &str, len: usize, i: usize) -> (r: Option<usize>)
    requires
        len == s@.len(),
        i <= len,
    ensures
        match r {
            Some(p) => sp_misc_end(s@, i as int) == Some(p as int) && p <= len,
            None => sp_misc_end(s@, i as int) is None,
        },
{
    let mut cur = i;
    loop
        invariant
            i <= cur <= len,
            len == s@.len(),
            sp_misc_end(s@, i as int) == sp_misc_end(s@, cur as int),
        decreases len - cur,
    {
        let p = ws_end(s, len, cur);
        let rem = len - p;
        if rem >= 2 && s.get_char(p) == '<' && s.get_char(p + 1) == '?' {
            proof {
                reveal_strlit("?>");
            }
            match find_pat(s, len, "?>", p + 2) {
                None => {
                    return None;
                },
                Some(e) => {
                    cur = e + 2;
                },
            }
        } else if rem > 3 && s.get_char(p) == '<' && s.get_char(p + 1) == '!' && s.get_char(p + 2)
            == '-' && s.get_char(p + 3) == '-' {
            proof {
                reveal_strlit("-->");
            }
            match find_pat(s, len, "-->", p + 4) {
                None => {
                    return None;
                },
                Some(e) => {
                    cur = e + 3;
                },
            }
        } else {
            return Some(p);
        }
    }
}

/// Parses a whole document to its root element. Returns `None` exactly when
/// the text is not one well-formed element between optional miscellany, as
/// `sp_document` lays the grammar down.
pub fn parse_document(s: &str) -> (r: Option<XmlNode>)
    ensures
        match r {
            Some(n) => sp_document(s@) == Some(n@),
            None => sp_document(s@) is None,
        },
{
    let len = s.unicode_len();
    let start = match misc_end(s, len, 0) {
        None => {
            return None;
        },
        Some(p) => p,
    };
    let (node, p) = match parse_elem(s, len, start) {
        None => {
            return None;
        },
        Some(np) => np,
    };
    let t = match misc_end(s, len, p) {
        None => {
            return None;
        },
        Some(t) => t,
    };
    if t == len {
        Some(node)
    } else {
        None
    }
}

} // verus!
