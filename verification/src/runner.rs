//! The interactive session manager.
//!
//! A [`Runner`] owns the session state: the loaded source text and its
//! path, the active [`SpendContext`], and — during an interactive run —
//! the cached REPL bindings, each a name mapped to the rendered text of a
//! previously computed value.
//!
//! The language toolchain has no incremental evaluation, so each REPL line
//! is answered by composing a complete program from scratch:
//! [`Runner::prepare_line`] classifies the line, validates a binding name,
//! selects the preamble and splices every cached binding around the body
//! as a `let <name> = (<text>) in (<body>)` wrapper. The surrounding shell
//! compiles and executes the composed program; [`Runner::commit_line`] and
//! [`Runner::commit_load`] record the outcome back into the session.

use vstd::prelude::*;

use crate::envfile::SpendContext;
use crate::envfile::TransactionKind;
use crate::envfile::Denom;
use crate::render::Value;
use crate::render::mvm_pretty;
use crate::render::spec_render;
use crate::text::LineClass;
use crate::text::classify_line;
use crate::text::compose_program;
use crate::text::preamble_of;
use crate::text::spec_binding_expr;
use crate::text::spec_binding_name;
use crate::text::spec_compose;
use crate::text::spec_is_binding;
use crate::text::spec_is_preamble;
use crate::text::spec_trim;
use crate::text::spec_valid_name;
use crate::text::spec_wrap_bindings;
use crate::text::trim_str;
use crate::text::valid_name;
use crate::text::views_of;

verus! {

/// Failure of a file load. The compile and machine diagnostics are
/// produced by the surrounding toolchain shell and carried here as text.
#[derive(Debug)]
pub enum LoadFileError {
    /// The source or scenario file could not be read.
    IoError(String),
    /// The compiler rejected the program; the diagnostic is surfaced
    /// verbatim.
    MeloError(String),
    /// Execution stopped before reaching a final value; the terminal
    /// machine state is rendered for post-mortem inspection.
    VmError(String),
}

/// Failure of a REPL line. Local to the line: session state is unchanged.
#[derive(Debug)]
pub enum ReplError {
    /// The compiler rejected the composed program.
    MeloError(String),
    /// Execution stopped before reaching a final value.
    VmError(String),
    /// The line looked like a binding but its name is not a lowercase
    /// identifier.
    InvalidBindingName,
}

/// A composed candidate program for one REPL line: the complete program
/// text to compile, and the name to bind on success.
#[derive(Debug)]
pub struct LineCandidate {
    pub name: Option<String>,
    pub program: String,
}

/// The placeholder source body a fresh session starts with.
pub open spec fn spec_placeholder_source() -> Seq<char> {
    "def w9q4vjz8xt5yr2ncm7badfe310() = 0"@
}

/// Replacement of the first binding with the given name, or appending a
/// new one: names stay unique and a later definition wins.
pub open spec fn spec_upsert(
    bs: Seq<(Seq<char>, Seq<char>)>,
    name: Seq<char>,
    text: Seq<char>,
) -> Seq<(Seq<char>, Seq<char>)>
    decreases bs.len(),
{
    if bs.len() == 0 {
        seq![(name, text)]
    } else if bs[0].0 == name {
        seq![(name, text)] + bs.drop_first()
    } else {
        seq![bs[0]] + spec_upsert(bs.drop_first(), name, text)
    }
}

/// The body a line contributes: its expression part for a binding, the
/// whole trimmed line otherwise.
pub open spec fn spec_line_body(t: Seq<char>) -> Seq<char> {
    if spec_is_binding(t) {
        spec_binding_expr(t)
    } else {
        t
    }
}

/// A high-level session for the scripting toolchain.
pub struct Runner {
    /// Contents of the loaded program.
    pub src_contents: String,
    /// Path the loaded program was read from.
    pub src_path: String,
    /// Covenant spend context.
    pub ctx: SpendContext,
    /// Cached REPL bindings: name to rendered literal text.
    pub bindings: Vec<(String, String)>,
}

impl Runner {
    /// Creates a session with nothing loaded: a placeholder source body, no
    /// bindings, and the given spend context (or the all-default one).
    pub fn new(ctx: Option<SpendContext>) -> (r: Runner)
        ensures
            r.src_contents@ == spec_placeholder_source(),
            r.src_path@ == "."@,
            r.bindings@.len() == 0,
            match ctx {
                Some(c) => r.ctx == c,
                None => {
                    &&& r.ctx.spender_txkind == TransactionKind::Normal
                    &&& r.ctx.spender_other_inputs@.len() == 0
                    &&& r.ctx.spender_index == 0
                    &&& r.ctx.spender_data@.len() == 0
                    &&& r.ctx.spender_output@.len() == 0
                    &&& r.ctx.parent_value == 0
                    &&& r.ctx.parent_denom == Denom::Mel
                    &&& r.ctx.parent_additional_data@.len() == 0
                    &&& r.ctx.ed25519_signers@.len() == 0
                },
            },
    {
        let context = match ctx {
            Some(c) => c,
            None => SpendContext {
                spender_txkind: TransactionKind::Normal,
                spender_other_inputs: Vec::new(),
                spender_index: 0,
                spender_data: Vec::new(),
                spender_output: Vec::new(),
                parent_value: 0,
                parent_denom: Denom::Mel,
                parent_additional_data: Vec::new(),
                ed25519_signers: Vec::new(),
            },
        };
        Runner {
            src_contents: String::from_str("def w9q4vjz8xt5yr2ncm7badfe310() = 0"),
            src_path: String::from_str("."),
            ctx: context,
            bindings: Vec::new(),
        }
    }

    /// Classifies a REPL line and composes the complete candidate program
    /// for it: preamble, every cached binding spliced as a literal `let`,
    /// then the line's body. A malformed binding name is rejected without
    /// touching session state.
    pub fn prepare_line(&self, line: &str) -> (r: Result<LineCandidate, ReplError>)
        ensures
            ({
                let t = spec_trim(line@);
                match r {
                    Result::Err(e) => e is InvalidBindingName && spec_is_binding(t)
                        && !spec_valid_name(spec_binding_name(t)),
                    Result::Ok(cand) => {
                        &&& !(spec_is_binding(t) && !spec_valid_name(spec_binding_name(t)))
                        &&& (match cand.name {
                            Some(nm) => spec_is_binding(t) && nm@ == spec_binding_name(t),
                            None => !spec_is_binding(t),
                        })
                        &&& exists|p: Seq<char>|
                            spec_is_preamble(self.src_contents@, p) && cand.program@
                                == spec_compose(
                                p,
                                spec_wrap_bindings(views_of(self.bindings@), spec_line_body(t)),
                            )
                    },
                }
            }),
    {
        let trimmed = trim_str(line);
        let (name, body) = match classify_line(trimmed.as_str()) {
            LineClass::Binding(nm, ex) => {
                if !valid_name(nm.as_str()) {
                    return Result::Err(ReplError::InvalidBindingName);
                }
                (Some(nm), ex)
            },
            LineClass::Bare => (None, trimmed),
        };
        let pre = preamble_of(self.src_contents.as_str());
        let program = compose_program(pre.as_str(), &self.bindings, body.as_str());
        Result::Ok(LineCandidate { name, program })
    }

    /// Records a successfully evaluated line: renders the value, and for a
    /// binding caches the rendered text under the bound name, a later
    /// definition of the same name replacing the earlier one. Returns the
    /// rendered text. The stored source is never touched.
    pub fn commit_line(&mut self, name: &Option<String>, value: &Value) -> (r: String)
        ensures
            r@ == spec_render(*value),
            final(self).src_contents@ == old(self).src_contents@,
            final(self).src_path@ == old(self).src_path@,
            final(self).ctx == old(self).ctx,
            match name {
                Some(nm) => views_of(final(self).bindings@) == spec_upsert(
                    views_of(old(self).bindings@),
                    nm@,
                    spec_render(*value),
                ),
                None => final(self).bindings@ == old(self).bindings@,
            },
    {
        let rendered = mvm_pretty(value);
        match name {
            Some(nm) => {
                self.upsert_binding(nm, &rendered);
            },
            None => {},
        }
        rendered
    }

    /// Replaces the loaded source wholesale and discards every cached
    /// binding: a fresh load starts a new lineage.
    pub fn commit_load(&mut self, path: &str, text: &str)
        ensures
            final(self).src_contents@ == text@,
            final(self).src_path@ == path@,
            final(self).bindings@.len() == 0,
            final(self).ctx == old(self).ctx,
    {
        self.src_contents = text.to_owned();
        self.src_path = path.to_owned();
        self.bindings = Vec::new();
    }

    fn upsert_binding(&mut self, name: &String, text: &String)
        ensures
            views_of(final(self).bindings@) == spec_upsert(
                views_of(old(self).bindings@),
                name@,
                text@,
            ),
            final(self).src_contents@ == old(self).src_contents@,
            final(self).src_path@ == old(self).src_path@,
            final(self).ctx == old(self).ctx,
    {
        let mut i: usize = 0;
        #[verifier::loop_isolation(false)]
        while i < self.bindings.len()
            invariant
                i <= self.bindings@.len(),
                forall|j: int| 0 <= j < i ==> views_of(self.bindings@)[j].0 != name@,
                *self == *old(self),
            decreases self.bindings@.len() - i,
        {
            if self.bindings[i].0.eq(name) {
                let entry = (name.clone(), text.clone());
                self.bindings.insert(i, entry);
                let ghost before = old(self).bindings@;
                self.bindings.remove(i + 1);
                proof {
                    let vs = views_of(before);
                    let got = views_of(self.bindings@);
                    assert(got =~= vs.update(i as int, (name@, text@)));
                    lemma_upsert_update(vs, name@, text@, i as int);
                }
                return ;
            }
            i = i + 1;
        }
        let entry = (name.clone(), text.clone());
        self.bindings.push(entry);
        proof {
            let vs = views_of(old(self).bindings@);
            assert(views_of(self.bindings@) =~= vs.push((name@, text@)));
            lemma_upsert_append(vs, name@, text@);
        }
    }
}

proof fn lemma_upsert_update(
    bs: Seq<(Seq<char>, Seq<char>)>,
    name: Seq<char>,
    text: Seq<char>,
    i: int,
)
    requires
        0 <= i < bs.len(),
        bs[i].0 == name,
        forall|j: int| 0 <= j < i ==> bs[j].0 != name,
    ensures
        spec_upsert(bs, name, text) == bs.update(i, (name, text)),
    decreases bs.len(),
{
    if i == 0 {
        assert(spec_upsert(bs, name, text) =~= bs.update(0, (name, text)));
    } else {
        lemma_upsert_update(bs.drop_first(), name, text, i - 1);
        assert(bs.drop_first().update(i - 1, (name, text)) =~= bs.update(
            i,
            (name, text),
        ).drop_first());
        assert(spec_upsert(bs, name, text) =~= bs.update(i, (name, text)));
    }
}

proof fn lemma_upsert_append(bs: Seq<(Seq<char>, Seq<char>)>, name: Seq<char>, text: Seq<char>)
    requires
        forall|j: int| 0 <= j < bs.len() ==> bs[j].0 != name,
    ensures
        spec_upsert(bs, name, text) == bs.push((name, text)),
    decreases bs.len(),
{
    if bs.len() > 0 {
        lemma_upsert_append(bs.drop_first(), name, text);
        assert(spec_upsert(bs, name, text) =~= bs.push((name, text)));
    } else {
        assert(spec_upsert(bs, name, text) =~= bs.push((name, text)));
    }
}

} // verus!
