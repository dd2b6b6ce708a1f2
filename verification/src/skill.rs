use vstd::prelude::*;
use crate::bridge::Bridge;
use crate::error::BridgeError;
use crate::text::push_char;

verus! {

/// A skill descriptor in TypeScript/Equipment format.
#[derive(Debug, Clone, PartialEq, Eq)]
pub struct TsSkill {
    pub name: String,
    pub inputs: Vec<String>,
    pub outputs: Vec<String>,
    pub source: String,
}

/// A skill descriptor in Rust/Construct format.
#[derive(Debug, Clone, PartialEq, Eq)]
pub struct RustSkill {
    pub name: String,
    pub params: Vec<String>,
    pub returns: Vec<String>,
    pub rust_module_path: String,
}

/// The texts of a list of strings.
pub open spec fn texts(v: Seq<String>) -> Seq<Seq<char>> {
    Seq::new(v.len(), |i: int| v[i]@)
}

/// What a `TsSkill` holds, as mathematical values.
#[verifier::ext_equal]
pub struct TsSkillView {
    pub name: Seq<char>,
    pub inputs: Seq<Seq<char>>,
    pub outputs: Seq<Seq<char>>,
    pub source: Seq<char>,
}

/// What a `RustSkill` holds, as mathematical values.
#[verifier::ext_equal]
pub struct RustSkillView {
    pub name: Seq<char>,
    pub params: Seq<Seq<char>>,
    pub returns: Seq<Seq<char>>,
    pub rust_module_path: Seq<char>,
}

impl View for TsSkill {
    type V = TsSkillView;

    open spec fn view(&self) -> TsSkillView {
        TsSkillView {
            name: self.name@,
            inputs: texts(self.inputs@),
            outputs: texts(self.outputs@),
            source: self.source@,
        }
    }
}

impl View for RustSkill {
    type V = RustSkillView;

    open spec fn view(&self) -> RustSkillView {
        RustSkillView {
            name: self.name@,
            params: texts(self.params@),
            returns: texts(self.returns@),
            rust_module_path: self.rust_module_path@,
        }
    }
}

/// A skill name with every '-' replaced by '_'.
pub open spec fn underscored(name: Seq<char>) -> Seq<char> {
    Seq::new(name.len(), |i: int| if name[i] == '-' { '_' } else { name[i] })
}

/// The Rust module path of a skill: `construct::skills::{name with '_' for '-'}`.
pub open spec fn module_path_of(name: Seq<char>) -> Seq<char> {
    "construct::skills::"@ + underscored(name)
}

/// The TypeScript source path of a skill: `equipment/skills/{name}.ts`.
pub open spec fn source_path_of(name: Seq<char>) -> Seq<char> {
    "equipment/skills/"@ + name + ".ts"@
}

/// The Rust descriptor of a TypeScript skill.
pub open spec fn rust_skill_of(ts: TsSkillView) -> RustSkillView {
    RustSkillView {
        name: ts.name,
        params: ts.inputs,
        returns: ts.outputs,
        rust_module_path: module_path_of(ts.name),
    }
}

/// The TypeScript descriptor of a Rust skill.
pub open spec fn ts_skill_of(rs: RustSkillView) -> TsSkillView {
    TsSkillView {
        name: rs.name,
        inputs: rs.params,
        outputs: rs.returns,
        source: source_path_of(rs.name),
    }
}

/// Converts skill descriptors between TypeScript (Equipment) and Rust
/// (Construct) formats.
pub struct SkillBridge;

fn copy_strings(v: &Vec<String>) -> (r: Vec<String>)
    ensures
        r@ == v@,
{
    let mut r: Vec<String> = Vec::new();
    for i in 0..v.len()
        invariant
            r@ == v@.take(i as int),
    {
        r.push(v[i].clone());
        assert(r@ =~= v@.take(i + 1));
    }
    assert(v@.take(v@.len() as int) =~= v@);
    r
}

fn rust_module_path_for(name: &str) -> (p: String)
    ensures
        p@ == module_path_of(name@),
{
    let mut p = "construct::skills::".to_owned();
    let ghost prefix = p@;
    let n = name.unicode_len();
    for i in 0..n
        invariant
            n == name@.len(),
            p@ == prefix + underscored(name@).take(i as int),
    {
        let c = name.get_char(i);
        if c == '-' {
            push_char(&mut p, '_');
        } else {
            push_char(&mut p, c);
        }
        assert(underscored(name@).take(i + 1) =~= underscored(name@).take(i as int).push(
            if c == '-' { '_' } else { c },
        ));
    }
    assert(underscored(name@).take(n as int) =~= underscored(name@));
    p
}

fn source_path(name: &str) -> (p: String)
    ensures
        p@ == source_path_of(name@),
{
    let mut p = "equipment/skills/".to_owned();
    p.append(name);
    p.append(".ts");
    p
}

impl Bridge<TsSkill, RustSkill> for SkillBridge {
    type Error = BridgeError;

    open spec fn accepts_forward(&self, ts: &TsSkill) -> bool {
        true
    }

    fn forward(&mut self, ts: &TsSkill) -> (r: Result<RustSkill, BridgeError>)
        ensures
            r matches Ok(rs) && rs@ == rust_skill_of(ts@),
    {
        Ok(RustSkill {
            name: ts.name.clone(),
            params: copy_strings(&ts.inputs),
            returns: copy_strings(&ts.outputs),
            rust_module_path: rust_module_path_for(ts.name.as_str()),
        })
    }

    fn backward(&self, rs: &RustSkill) -> (r: Result<TsSkill, BridgeError>)
        ensures
            r matches Ok(ts) && ts@ == ts_skill_of(rs@),
    {
        Ok(TsSkill {
            name: rs.name.clone(),
            inputs: copy_strings(&rs.params),
            outputs: copy_strings(&rs.returns),
            source: source_path(rs.name.as_str()),
        })
    }
}

/// Converting a TypeScript skill to Rust and back keeps its name, inputs and
/// outputs; its source becomes `equipment/skills/{name}.ts`.
pub proof fn lemma_skill_roundtrip(ts: TsSkillView)
    ensures
        ts_skill_of(rust_skill_of(ts)) == (TsSkillView { source: source_path_of(ts.name), ..ts }),
{
}

/// Converting a Rust skill to TypeScript and back keeps its name, parameters
/// and returns; its module path becomes `construct::skills::{name}` with '_'
/// for '-'.
pub proof fn lemma_rust_skill_roundtrip(rs: RustSkillView)
    ensures
        rust_skill_of(ts_skill_of(rs)) == (RustSkillView {
            rust_module_path: module_path_of(rs.name),
            ..rs
        }),
{
}

/// A name without '-' stays as it is in the module path.
pub proof fn lemma_underscored_keeps_plain_names(name: Seq<char>)
    requires
        !name.contains('-'),
    ensures
        underscored(name) == name,
{
    assert forall|i: int| 0 <= i < name.len() implies underscored(name)[i] == name[i] by {
        if name[i] == '-' {
            assert(name.contains('-'));
        }
    }
    assert(underscored(name) =~= name);
}

/// The module path is `construct::skills::` followed by the name, character
/// for character, with each '-' written as '_' and every other character kept;
/// the prefix is there for every name.
pub proof fn lemma_module_path_shape(name: Seq<char>, i: int)
    requires
        0 <= i < name.len(),
    ensures
        ({
            let prefix = "construct::skills::"@;
            let p = module_path_of(name);
            &&& p.len() == prefix.len() + name.len()
            &&& p.subrange(0, prefix.len() as int) == prefix
            &&& name[i] == '-' ==> p[prefix.len() + i] == '_'
            &&& name[i] != '-' ==> p[prefix.len() + i] == name[i]
        }),
{
    let prefix = "construct::skills::"@;
    assert(module_path_of(name).subrange(0, prefix.len() as int) =~= prefix);
}

/// The module path of any name starts with `construct::skills::`.
pub proof fn lemma_module_path_prefix(name: Seq<char>)
    ensures
        module_path_of(name).len() == "construct::skills::"@.len() + name.len(),
        module_path_of(name).subrange(0, "construct::skills::"@.len() as int)
            == "construct::skills::"@,
{
    let prefix = "construct::skills::"@;
    assert(module_path_of(name).subrange(0, prefix.len() as int) =~= prefix);
}

/// The source path is `equipment/skills/`, then the name with every character
/// kept as it is, then `.ts`.
pub proof fn lemma_source_path_shape(name: Seq<char>)
    ensures
        ({
            let prefix = "equipment/skills/"@;
            let suffix = ".ts"@;
            let p = source_path_of(name);
            &&& p.len() == prefix.len() + name.len() + suffix.len()
            &&& p.subrange(0, prefix.len() as int) == prefix
            &&& p.subrange(prefix.len() as int, (prefix.len() + name.len()) as int) == name
            &&& p.subrange((prefix.len() + name.len()) as int, p.len() as int) == suffix
        }),
{
    let prefix = "equipment/skills/"@;
    let suffix = ".ts"@;
    let p = source_path_of(name);
    assert(p.subrange(0, prefix.len() as int) =~= prefix);
    assert(p.subrange(prefix.len() as int, (prefix.len() + name.len()) as int) =~= name);
    assert(p.subrange((prefix.len() + name.len()) as int, p.len() as int) =~= suffix);
}

/// Converting a TypeScript skill keeps its name, its inputs as parameters and
/// its outputs as returns.
pub proof fn lemma_rust_skill_fields(ts: TsSkillView)
    ensures
        rust_skill_of(ts).name == ts.name,
        rust_skill_of(ts).params == ts.inputs,
        rust_skill_of(ts).returns == ts.outputs,
{
}

/// Converting a Rust skill keeps its name, its parameters as inputs and its
/// returns as outputs.
pub proof fn lemma_ts_skill_fields(rs: RustSkillView)
    ensures
        ts_skill_of(rs).name == rs.name,
        ts_skill_of(rs).inputs == rs.params,
        ts_skill_of(rs).outputs == rs.returns,
{
}

} // verus!
