//! The tree emitter: walks a document model, accumulating a path of section
//! names, and appends constant declarations to a caller-owned buffer.
//!
//! The emitted text is pinned exactly by spec functions: a header banner
//! (generator name and version, then the root's `name/arch/profile` joined
//! by `/`), then each top-level section after a blank line. A section emits
//! a banner holding its fully qualified path (names joined by `::`), its
//! nested sections, then its config leaves. Each leaf becomes one
//! `#[no_mangle]` declaration whose name is the upper-cased path-and-key
//! joined by `_` — the fully qualified form, so sibling sections cannot
//! collide — and whose type and literal follow the resolved value's kind.

use vstd::prelude::*;
use vstd::pervasive::unreached;

use crate::error::{FormatError, GFormatError};
use crate::model::{
    ConfigDataType, ConfigType, GConfig, GConfigData, GKonfigurator, GSection, Konfigurator,
    SectionType, configs_view, resolved_value, sections_view,
};
use crate::text::{
    append_i32_dec, append_joined, append_upper, int_dec_seq, joined, push_char, space_underscores,
    spaced, upper_seq,
};

verus! {

/// What `titlecase::titlecase` returns for a given sequence of characters.
pub uninterp spec fn titlecase_of(s: Seq<char>) -> Seq<char>;

/// Relies on `titlecase::titlecase`: the result is a pure function of the
/// input characters (fixed capitalization rules, no other inputs).
#[verifier::external_body]
fn title_case(s: &str) -> (r: String)
    ensures
        r@ == titlecase_of(s@),
{
    titlecase::titlecase(s)
}

/// The generator's product name as the header shows it: the crate name,
/// underscores turned to spaces, then title-cased.
pub open spec fn product_name() -> Seq<char> {
    titlecase_of(spaced("konfigurator"@))
}

/// A one-line banner comment.
pub open spec fn banner1(line: Seq<char>) -> Seq<char> {
    "//\n// "@ + line + "\n//\n"@
}

/// The fixed header banner: the do-not-edit notice, then the product name,
/// version, and the root's identity joined by `/`.
pub open spec fn notice_banner(
    product: Seq<char>,
    name: Seq<char>,
    arch: Seq<char>,
    profile: Seq<char>,
) -> Seq<char> {
    "//\n// This is an auto-generated file; Do not edit.\n// "@ + product + " v0.1.0 | "@ + name
        + "/"@ + arch + "/"@ + profile + "\n//\n"@
}

/// The declared constant name: the section path and the key, joined by `_`
/// and upper-cased.
pub open spec fn qualified_name(path: Seq<Seq<char>>, key: Seq<char>) -> Seq<char> {
    upper_seq(joined(path.push(key), "_"@))
}

/// The typed tail of a declaration line, by value kind.
pub open spec fn decl_tail(v: GConfigData) -> Seq<char> {
    match v {
        GConfigData::Boolean(b) => if b {
            ": bool = true"@
        } else {
            ": bool = false"@
        },
        GConfigData::Integer(i) => ": i32 = "@ + int_dec_seq(i as int),
        GConfigData::Double(t) => ": f64 = "@ + t,
        GConfigData::String(s) => ": &'static str = \""@ + s + "\""@,
        GConfigData::Enum(s) => ": &'static str = \""@ + s + "\""@,
    }
}

/// One whole declaration line for a named, resolved value.
pub open spec fn decl_line(name: Seq<char>, v: GConfigData) -> Seq<char> {
    "#[no_mangle]\npub static "@ + name + decl_tail(v) + ";\n"@
}

/// What one config leaf appends under the given path; nothing when it does
/// not resolve (emission is only ever run on a checked tree).
pub open spec fn config_dump_spec(c: GConfig, path: Seq<Seq<char>>) -> Seq<char> {
    match resolved_value(c) {
        Ok(v) => decl_line(qualified_name(path, c.key), v),
        Err(_) => Seq::empty(),
    }
}

/// What a list of config leaves appends, in order.
pub open spec fn configs_dump(cs: Seq<GConfig>, path: Seq<Seq<char>>) -> Seq<char>
    decreases cs.len(),
{
    if cs.len() == 0 {
        Seq::empty()
    } else {
        configs_dump(cs.drop_last(), path) + config_dump_spec(cs.last(), path)
    }
}

/// What a list of sections appends: each preceded by a blank line.
pub open spec fn subsections_dump(ss: Seq<GSection>, path: Seq<Seq<char>>) -> Seq<char>
    decreases ss, 0int,
{
    if ss.len() == 0 {
        Seq::empty()
    } else {
        subsections_dump(ss.drop_last(), path) + "\n"@ + section_dump_spec(ss.last(), path)
    }
}

/// What one section appends under the path of its ancestors: its banner
/// (the qualified path joined by `::`), its nested sections, then its
/// config leaves.
pub open spec fn section_dump_spec(sec: GSection, path: Seq<Seq<char>>) -> Seq<char>
    decreases sec, 1int,
{
    let p2 = path.push(sec.name);
    banner1(joined(p2, "::"@)) + subsections_dump(sec.sections, p2) + configs_dump(sec.configs, p2)
}

/// The whole emitted buffer for a document under a given ambient path: the
/// header banner, then the top-level sections.
pub open spec fn konfig_dump_spec(k: GKonfigurator, path: Seq<Seq<char>>) -> Seq<char> {
    notice_banner(product_name(), k.name, k.arch, k.profile) + subsections_dump(k.sections, path)
}

/// The first failing config leaf in emission order, if any.
pub open spec fn configs_check(cs: Seq<GConfig>) -> Result<(), GFormatError>
    decreases cs.len(),
{
    if cs.len() == 0 {
        Ok(())
    } else {
        match resolved_value(cs[0]) {
            Err(e) => Err(e),
            Ok(_) => configs_check(cs.drop_first()),
        }
    }
}

/// The first failing leaf among a list of sections, in emission order.
pub open spec fn sections_check(ss: Seq<GSection>) -> Result<(), GFormatError>
    decreases ss, 0int,
{
    if ss.len() == 0 {
        Ok(())
    } else {
        match section_check(ss[0]) {
            Err(e) => Err(e),
            Ok(_) => sections_check(ss.drop_first()),
        }
    }
}

/// The first failing leaf within one section, in emission order: nested
/// sections first, then direct leaves.
pub open spec fn section_check(sec: GSection) -> Result<(), GFormatError>
    decreases sec, 1int,
{
    match sections_check(sec.sections) {
        Err(e) => Err(e),
        Ok(_) => configs_check(sec.configs),
    }
}

/// Whether every leaf of the document resolves; `Err` carries the first
/// failure in emission order.
pub open spec fn konfig_check(k: GKonfigurator) -> Result<(), GFormatError> {
    sections_check(k.sections)
}

proof fn lemma_configs_check_each(cs: Seq<GConfig>)
    requires
        configs_check(cs) is Ok,
    ensures
        forall|i: int| 0 <= i < cs.len() ==> resolved_value(#[trigger] cs[i]) is Ok,
    decreases cs.len(),
{
    if cs.len() > 0 {
        lemma_configs_check_each(cs.drop_first());
        assert(forall|i: int|
            1 <= i < cs.len() ==> resolved_value(#[trigger] cs[i]) == resolved_value(
                cs.drop_first()[i - 1],
            ));
    }
}

proof fn lemma_sections_check_each(ss: Seq<GSection>)
    requires
        sections_check(ss) is Ok,
    ensures
        forall|i: int| 0 <= i < ss.len() ==> section_check(#[trigger] ss[i]) is Ok,
    decreases ss.len(),
{
    if ss.len() > 0 {
        lemma_sections_check_each(ss.drop_first());
        assert(forall|i: int|
            1 <= i < ss.len() ==> section_check(#[trigger] ss[i]) == section_check(
                ss.drop_first()[i - 1],
            ));
    }
}

/// Emission appends text to a caller-owned buffer; `depth` is the path of
/// enclosing section names and is handed back exactly as it came.
pub trait Dump {
    /// Whether every config leaf reachable from `self` resolves, so that
    /// emission cannot fail.
    spec fn dump_ready(&self) -> bool;

    /// The exact text this node appends under the given path.
    spec fn dump_spec(&self, path: Seq<Seq<char>>) -> Seq<char>;

    /// Appends this node's text to `buffer`.
    fn dump(&self, buffer: &mut String, depth: &mut Vec<String>)
        requires
            self.dump_ready(),
        ensures
            final(buffer)@ == old(buffer)@ + self.dump_spec(old(depth).deep_view()),
            final(depth)@ == old(depth)@,
    ;
}

impl Dump for ConfigType {
    open spec fn dump_ready(&self) -> bool {
        resolved_value(self@) is Ok
    }

    open spec fn dump_spec(&self, path: Seq<Seq<char>>) -> Seq<char> {
        config_dump_spec(self@, path)
    }

    fn dump(&self, buffer: &mut String, depth: &mut Vec<String>) {
        let v = match self.value() {
            Ok(v) => v,
            Err(_) => unreached(),
        };
        let mut qual = String::new();
        append_joined(&mut qual, depth, "_");
        if depth.len() > 0 {
            push_char(&mut qual, '_');
        }
        qual.append(self.key.as_str());
        proof {
            let path = depth.deep_view();
            reveal_strlit("_");
            if path.len() == 0 {
                assert(qual@ =~= joined(path.push(self@.key), "_"@));
            } else {
                assert(path.push(self@.key).drop_last() =~= path);
                assert(qual@ =~= joined(path, "_"@) + "_"@ + self@.key);
                assert(qual@ =~= joined(path.push(self@.key), "_"@));
            }
        }
        buffer.append("#[no_mangle]\npub static ");
        append_upper(buffer, qual.as_str());
        match v {
            ConfigDataType::Boolean(b) => {
                if b {
                    buffer.append(": bool = true");
                } else {
                    buffer.append(": bool = false");
                }
            },
            ConfigDataType::Integer(i) => {
                buffer.append(": i32 = ");
                append_i32_dec(buffer, i);
            },
            ConfigDataType::Double(t) => {
                buffer.append(": f64 = ");
                buffer.append(t.as_str());
            },
            ConfigDataType::String(s) => {
                buffer.append(": &'static str = \"");
                buffer.append(s.as_str());
                buffer.append("\"");
            },
            ConfigDataType::Enum(s) => {
                buffer.append(": &'static str = \"");
                buffer.append(s.as_str());
                buffer.append("\"");
            },
        }
        buffer.append(";\n");
        proof {
            let path = old(depth).deep_view();
            assert(final(buffer)@ =~= old(buffer)@ + config_dump_spec(self@, path));
        }
    }
}

impl Dump for SectionType {
    open spec fn dump_ready(&self) -> bool {
        section_check(self@) is Ok
    }

    open spec fn dump_spec(&self, path: Seq<Seq<char>>) -> Seq<char> {
        section_dump_spec(self@, path)
    }

    fn dump(&self, buffer: &mut String, depth: &mut Vec<String>)
        decreases *self,
    {
        let ghost path = old(depth).deep_view();
        let ghost p2 = path.push(self@.name);
        proof {
            lemma_sections_check_each(self@.sections);
            lemma_configs_check_each(self@.configs);
        }
        depth.push(self.name.clone());
        proof {
            assert(depth.deep_view() =~= p2);
        }
        buffer.append("//\n// ");
        append_joined(buffer, depth, "::");
        buffer.append("\n//\n");
        let ghost banner_done = old(buffer)@ + banner1(joined(p2, "::"@));
        proof {
            assert(buffer@ =~= banner_done);
        }
        let mut i: usize = 0;
        while i < self.sections.len()
            invariant
                0 <= i <= self.sections@.len(),
                depth@ == old(depth)@.push(self.name),
                depth.deep_view() == p2,
                sections_view(self.sections) == self@.sections,
                self.sections@.len() == self@.sections.len(),
                forall|m: int|
                    0 <= m < self@.sections.len() ==> section_check(
                        #[trigger] self@.sections[m],
                    ) is Ok,
                buffer@ == banner_done + subsections_dump(self@.sections.take(i as int), p2),
            decreases self.sections@.len() - i,
        {
            proof {
                assert(sections_view(self.sections)[i as int] == self.sections[i as int]@);
                assert(section_check(self@.sections[i as int]) is Ok);
            }
            buffer.append("\n");
            self.sections[i].dump(buffer, depth);
            proof {
                let t = self@.sections.take(i as int + 1);
                assert(t.drop_last() =~= self@.sections.take(i as int));
                assert(t.last() == self@.sections[i as int]);
                assert(buffer@ =~= banner_done + subsections_dump(t, p2));
            }
            i += 1;
        }
        proof {
            assert(self@.sections.take(self@.sections.len() as int) =~= self@.sections);
        }
        let ghost sections_done = banner_done + subsections_dump(self@.sections, p2);
        let mut j: usize = 0;
        while j < self.configs.len()
            invariant
                0 <= j <= self.configs@.len(),
                depth@ == old(depth)@.push(self.name),
                depth.deep_view() == p2,
                configs_view(self.configs) == self@.configs,
                self.configs@.len() == self@.configs.len(),
                forall|m: int|
                    0 <= m < self@.configs.len() ==> resolved_value(
                        #[trigger] self@.configs[m],
                    ) is Ok,
                buffer@ == sections_done + configs_dump(self@.configs.take(j as int), p2),
            decreases self.configs@.len() - j,
        {
            proof {
                assert(configs_view(self.configs)[j as int] == self.configs[j as int]@);
                assert(resolved_value(self@.configs[j as int]) is Ok);
            }
            self.configs[j].dump(buffer, depth);
            proof {
                let t = self@.configs.take(j as int + 1);
                assert(t.drop_last() =~= self@.configs.take(j as int));
                assert(t.last() == self@.configs[j as int]);
                assert(buffer@ =~= sections_done + configs_dump(t, p2));
            }
            j += 1;
        }
        proof {
            assert(self@.configs.take(self@.configs.len() as int) =~= self@.configs);
        }
        depth.pop();
        proof {
            assert(final(depth)@ =~= old(depth)@);
            assert(final(buffer)@ =~= old(buffer)@ + section_dump_spec(self@, path));
        }
    }
}

impl Dump for Konfigurator {
    open spec fn dump_ready(&self) -> bool {
        konfig_check(self@) is Ok
    }

    open spec fn dump_spec(&self, path: Seq<Seq<char>>) -> Seq<char> {
        konfig_dump_spec(self@, path)
    }

    fn dump(&self, buffer: &mut String, depth: &mut Vec<String>) {
        let ghost path = old(depth).deep_view();
        proof {
            lemma_sections_check_each(self@.sections);
        }
        let product = title_case(space_underscores("konfigurator").as_str());
        buffer.append("//\n// This is an auto-generated file; Do not edit.\n// ");
        buffer.append(product.as_str());
        buffer.append(" v0.1.0 | ");
        buffer.append(self.name.as_str());
        buffer.append("/");
        buffer.append(self.arch.as_str());
        buffer.append("/");
        buffer.append(self.profile.as_str());
        buffer.append("\n//\n");
        let ghost banner_done = old(buffer)@ + notice_banner(
            product_name(),
            self@.name,
            self@.arch,
            self@.profile,
        );
        proof {
            assert(buffer@ =~= banner_done);
        }
        let mut i: usize = 0;
        while i < self.sections.len()
            invariant
                0 <= i <= self.sections@.len(),
                depth@ == old(depth)@,
                depth.deep_view() == path,
                sections_view(self.sections) == self@.sections,
                self.sections@.len() == self@.sections.len(),
                forall|m: int|
                    0 <= m < self@.sections.len() ==> section_check(
                        #[trigger] self@.sections[m],
                    ) is Ok,
                buffer@ == banner_done + subsections_dump(self@.sections.take(i as int), path),
            decreases self.sections@.len() - i,
        {
            proof {
                assert(sections_view(self.sections)[i as int] == self.sections[i as int]@);
                assert(section_check(self@.sections[i as int]) is Ok);
            }
            buffer.append("\n");
            self.sections[i].dump(buffer, depth);
            proof {
                let t = self@.sections.take(i as int + 1);
                assert(t.drop_last() =~= self@.sections.take(i as int));
                assert(t.last() == self@.sections[i as int]);
                assert(buffer@ =~= banner_done + subsections_dump(t, path));
            }
            i += 1;
        }
        proof {
            assert(self@.sections.take(self@.sections.len() as int) =~= self@.sections);
            assert(final(buffer)@ =~= old(buffer)@ + konfig_dump_spec(self@, path));
        }
    }
}

fn check_configs(cs: &Vec<ConfigType>) -> (r: Result<(), FormatError>)
    ensures
        match r {
            Ok(_) => configs_check(configs_view(*cs)) is Ok,
            Err(e) => configs_check(configs_view(*cs)) == Err::<(), GFormatError>(e@),
        },
{
    proof {
        assert(configs_view(*cs).skip(0) =~= configs_view(*cs));
    }
    let mut i: usize = 0;
    while i < cs.len()
        invariant
            0 <= i <= cs@.len(),
            configs_check(configs_view(*cs)) == configs_check(configs_view(*cs).skip(i as int)),
        decreases cs@.len() - i,
    {
        proof {
            let cv = configs_view(*cs);
            assert(cv.skip(i as int)[0] == cv[i as int]);
            assert(cv.skip(i as int).drop_first() =~= cv.skip(i as int + 1));
        }
        match cs[i].value() {
            Err(e) => {
                return Err(e);
            },
            Ok(_) => {},
        }
        i += 1;
    }
    proof {
        assert(configs_view(*cs).skip(cs@.len() as int) =~= Seq::<GConfig>::empty());
    }
    Ok(())
}

fn check_section(sec: &SectionType) -> (r: Result<(), FormatError>)
    ensures
        match r {
            Ok(_) => section_check(sec@) is Ok,
            Err(e) => section_check(sec@) == Err::<(), GFormatError>(e@),
        },
    decreases *sec,
{
    proof {
        assert(sections_view(sec.sections).skip(0) =~= sections_view(sec.sections));
        assert(sections_view(sec.sections) =~= sec@.sections);
        assert(configs_view(sec.configs) =~= sec@.configs);
    }
    let mut i: usize = 0;
    while i < sec.sections.len()
        invariant
            0 <= i <= sec.sections@.len(),
            sections_view(sec.sections) == sec@.sections,
            sec.sections@.len() == sec@.sections.len(),
            sections_check(sec@.sections) == sections_check(sec@.sections.skip(i as int)),
        decreases sec.sections@.len() - i,
    {
        proof {
            let sv = sec@.sections;
            assert(sv.skip(i as int)[0] == sv[i as int]);
            assert(sv.skip(i as int).drop_first() =~= sv.skip(i as int + 1));
        }
        match check_section(&sec.sections[i]) {
            Err(e) => {
                return Err(e);
            },
            Ok(_) => {},
        }
        i += 1;
    }
    proof {
        assert(sec@.sections.skip(sec@.sections.len() as int) =~= Seq::<GSection>::empty());
    }
    check_configs(&sec.configs)
}

impl Konfigurator {
    /// Whether every config leaf of the document resolves; the first
    /// failure in emission order otherwise.
    pub fn check(&self) -> (r: Result<(), FormatError>)
        ensures
            match r {
                Ok(_) => konfig_check(self@) is Ok,
                Err(e) => konfig_check(self@) == Err::<(), GFormatError>(e@),
            },
    {
        proof {
            assert(sections_view(self.sections).skip(0) =~= sections_view(self.sections));
        }
        let mut i: usize = 0;
        while i < self.sections.len()
            invariant
                0 <= i <= self.sections@.len(),
                sections_view(self.sections) == self@.sections,
                self.sections@.len() == self@.sections.len(),
                sections_check(self@.sections) == sections_check(self@.sections.skip(i as int)),
            decreases self.sections@.len() - i,
        {
            proof {
                let sv = self@.sections;
                assert(sv.skip(i as int)[0] == sv[i as int]);
                assert(sv.skip(i as int).drop_first() =~= sv.skip(i as int + 1));
            }
            match check_section(&self.sections[i]) {
                Err(e) => {
                    return Err(e);
                },
                Ok(_) => {},
            }
            i += 1;
        }
        proof {
            assert(self@.sections.skip(self@.sections.len() as int) =~= Seq::<GSection>::empty());
        }
        Ok(())
    }

    /// The whole emitted buffer for this document, or the first resolution
    /// failure in emission order.
    pub fn render(&self) -> (r: Result<String, FormatError>)
        ensures
            match r {
                Ok(out) => konfig_check(self@) is Ok && out@ == konfig_dump_spec(
                    self@,
                    Seq::empty(),
                ),
                Err(e) => konfig_check(self@) == Err::<(), GFormatError>(e@),
            },
    {
        match self.check() {
            Err(e) => {
                return Err(e);
            },
            Ok(_) => {},
        }
        let mut buffer = String::new();
        let mut depth: Vec<String> = Vec::new();
        proof {
            assert(depth.deep_view() =~= Seq::<Seq<char>>::empty());
        }
        self.dump(&mut buffer, &mut depth);
        Ok(buffer)
    }
}

/// Emitting the same document twice yields byte-identical output: the
/// emitted text is a function of the document and the ambient path alone.
pub proof fn lemma_emission_idempotent(
    k: GKonfigurator,
    path: Seq<Seq<char>>,
    first: Seq<char>,
    second: Seq<char>,
)
    requires
        first == konfig_dump_spec(k, path),
        second == konfig_dump_spec(k, path),
    ensures
        first == second,
{
}

} // verus!
