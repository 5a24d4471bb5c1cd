//! Reading a generated buffer's identity back out of its header.
//!
//! The header's second banner line ends with `name/arch/profile` after a
//! ` | ` separator. `extract_identity` finds the first ` | `, takes the
//! rest of that line, and splits it at its first two `/` marks. The round
//! trip against emission is proved in `lemma_header_round_trip`.

use vstd::prelude::*;

use crate::emit::notice_banner;
use crate::text::{has_char, lemma_has_char_index};
use crate::xml::{find_char, find_pat, sp_find, sp_find_char, sp_match_at};

verus! {

/// The identity triple a buffer's header denotes: the text between the
/// first ` | ` and the next line break, split at its first two `/` marks.
pub open spec fn extract_identity_spec(out: Seq<char>) -> Option<
    (Seq<char>, Seq<char>, Seq<char>),
> {
    let k = sp_find(out, " | "@, 0);
    if k < 0 {
        None
    } else {
        let e = sp_find_char(out, k + 3, '\n');
        let seg = out.subrange(k + 3, e);
        let a = sp_find_char(seg, 0, '/');
        if a >= seg.len() {
            None
        } else {
            let b = sp_find_char(seg, a + 1, '/');
            if b >= seg.len() {
                None
            } else {
                Some(
                    (
                        seg.subrange(0, a),
                        seg.subrange(a + 1, b),
                        seg.subrange(b + 1, seg.len() as int),
                    ),
                )
            }
        }
    }
}

/// Reads the `name/arch/profile` triple back out of an emitted buffer.
pub fn extract_identity(out: &str) -> (r: Option<(String, String, String)>)
    ensures
        match r {
            Some(t) => extract_identity_spec(out@) == Some((t.0@, t.1@, t.2@)),
            None => extract_identity_spec(out@) is None,
        },
{
    let len = out.unicode_len();
    proof {
        reveal_strlit(" | ");
    }
    let k = match find_pat(out, len, " | ", 0) {
        None => {
            return None;
        },
        Some(k) => k,
    };
    let e = find_char(out, len, k + 3, '\n');
    let seg = out.substring_char(k + 3, e);
    let seg_len = e - (k + 3);
    let a = find_char(seg, seg_len, 0, '/');
    if a >= seg_len {
        return None;
    }
    let b = find_char(seg, seg_len, a + 1, '/');
    if b >= seg_len {
        return None;
    }
    Some(
        (
            String::from_str(seg.substring_char(0, a)),
            String::from_str(seg.substring_char(a + 1, b)),
            String::from_str(seg.substring_char(b + 1, seg_len)),
        ),
    )
}

proof fn lemma_sp_find_from(s: Seq<char>, pat: Seq<char>, from: int, m: int)
    requires
        0 <= from <= m,
        pat.len() > 0,
        m + pat.len() <= s.len(),
        sp_match_at(s, pat, m),
        forall|i: int| from <= i < m ==> !sp_match_at(s, pat, i),
    ensures
        sp_find(s, pat, from) == m,
    decreases m - from,
{
    if from < m {
        lemma_sp_find_from(s, pat, from + 1, m);
    }
}

proof fn lemma_sp_find_char_from(s: Seq<char>, from: int, c: char, m: int)
    requires
        0 <= from <= m < s.len(),
        s[m] == c,
        forall|i: int| from <= i < m ==> s[i] != c,
    ensures
        sp_find_char(s, from, c) == m,
    decreases m - from,
{
    if from < m {
        lemma_sp_find_char_from(s, from + 1, c, m);
    }
}

/// Round trip: extracting the identity from an emitted buffer reproduces
/// the root's `name`, `arch` and `profile` exactly, whatever follows the
/// header — for every product name free of `|` and line breaks, every
/// `name` and `arch` free of `/` and line breaks, and every `profile` free
/// of line breaks.
#[verifier::rlimit(100)]
pub proof fn lemma_header_round_trip(
    product: Seq<char>,
    name: Seq<char>,
    arch: Seq<char>,
    profile: Seq<char>,
    rest: Seq<char>,
)
    requires
        !has_char(product, '|'),
        !has_char(product, '\n'),
        !has_char(name, '/'),
        !has_char(name, '\n'),
        !has_char(arch, '/'),
        !has_char(arch, '\n'),
        !has_char(profile, '\n'),
    ensures
        extract_identity_spec(notice_banner(product, name, arch, profile) + rest) == Some(
            (name, arch, profile),
        ),
{
    let p0 = "//\n// This is an auto-generated file; Do not edit.\n// "@;
    let p1 = " v0.1.0 | "@;
    let slash = "/"@;
    let p2 = "\n//\n"@;
    let pat = " | "@;
    reveal_strlit("//\n// This is an auto-generated file; Do not edit.\n// ");
    reveal_strlit(" v0.1.0 | ");
    reveal_strlit("/");
    reveal_strlit("\n//\n");
    reveal_strlit(" | ");
    lemma_has_char_index(product, '|');
    lemma_has_char_index(product, '\n');
    lemma_has_char_index(name, '/');
    lemma_has_char_index(name, '\n');
    lemma_has_char_index(arch, '/');
    lemma_has_char_index(arch, '\n');
    lemma_has_char_index(profile, '\n');

    let seg0 = name + slash + arch + slash + profile;
    let out = notice_banner(product, name, arch, profile) + rest;
    assert(out =~= p0 + product + p1 + seg0 + p2 + rest);
    let k = (p0.len() + product.len() + 7) as int;

    // the separator occurs at `k` and nowhere earlier
    assert(out.subrange(k, k + 3) =~= pat);
    assert(sp_match_at(out, pat, k));
    assert(forall|j: int| 0 <= j < k + 1 ==> out[j] != '|') by {
        assert(forall|j: int| 0 <= j < p0.len() ==> p0[j] != '|');
        assert(forall|j: int| 0 <= j < 8 ==> p1[j] != '|');
    }
    assert forall|i: int| 0 <= i < k implies !sp_match_at(out, pat, i) by {
        if sp_match_at(out, pat, i) {
            assert(out.subrange(i, i + 3)[1] == out[i + 1]);
            assert(out[i + 1] == '|');
        }
    }
    lemma_sp_find_from(out, pat, 0, k);

    // the line ends right after the profile
    let e = k + 3 + name.len() + 1 + arch.len() + 1 + profile.len() as int;
    assert(out[e] == '\n');
    assert(forall|j: int| k + 3 <= j < e ==> out[j] != '\n');
    lemma_sp_find_char_from(out, k + 3, '\n', e);

    // the segment between them is the identity triple
    let seg = out.subrange(k + 3, e);
    assert(seg =~= seg0);
    let a = name.len() as int;
    assert(seg[a] == '/');
    assert(forall|j: int| 0 <= j < a ==> seg[j] != '/');
    lemma_sp_find_char_from(seg, 0, '/', a);
    let b = (name.len() + 1 + arch.len()) as int;
    assert(seg[b] == '/');
    assert(forall|j: int| a + 1 <= j < b ==> seg[j] != '/');
    lemma_sp_find_char_from(seg, a + 1, '/', b);
    assert(seg.subrange(0, a) =~= name);
    assert(seg.subrange(a + 1, b) =~= arch);
    assert(seg.subrange(b + 1, seg.len() as int) =~= profile);
}

/// The round trip stated against whole-document emission: whatever the
/// sections contribute, the extracted identity is the root's own.
pub proof fn lemma_render_round_trip(k: crate::model::GKonfigurator, path: Seq<Seq<char>>)
    requires
        !has_char(crate::emit::product_name(), '|'),
        !has_char(crate::emit::product_name(), '\n'),
        !has_char(k.name, '/'),
        !has_char(k.name, '\n'),
        !has_char(k.arch, '/'),
        !has_char(k.arch, '\n'),
        !has_char(k.profile, '\n'),
    ensures
        extract_identity_spec(crate::emit::konfig_dump_spec(k, path)) == Some(
            (k.name, k.arch, k.profile),
        ),
{
    lemma_header_round_trip(
        crate::emit::product_name(),
        k.name,
        k.arch,
        k.profile,
        crate::emit::subsections_dump(k.sections, path),
    );
}

} // verus!
