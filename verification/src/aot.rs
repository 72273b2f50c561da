//! The outcome of an LLVM AOT build: its status, how it is reported in the
//! build manifest, and the result record assembled from the lowering and
//! linking steps.
use vstd::prelude::*;
use crate::text::{push_char, owned};
use crate::toolchain::LinkOutcome;

verus! {

/// How far an LLVM AOT build got.
#[derive(Debug, Clone, Copy, PartialEq, Eq, Structural)]
pub enum LlvmAotStatus {
    Unsupported,
    LoweringUnsupported,
    IrGenerated,
    Built,
    LinkSkipped,
    ToolchainMissing,
    ToolchainFailed,
}

/// The manifest status word of each build status.
pub open spec fn manifest_status(s: LlvmAotStatus) -> Seq<char> {
    match s {
        LlvmAotStatus::Unsupported | LlvmAotStatus::LoweringUnsupported => "unsupported"@,
        LlvmAotStatus::IrGenerated
        | LlvmAotStatus::LinkSkipped
        | LlvmAotStatus::ToolchainMissing
        | LlvmAotStatus::ToolchainFailed => "ir_generated"@,
        LlvmAotStatus::Built => "built"@,
    }
}

/// The blocker code reported for a status, if the status blocks an executable.
pub open spec fn blocker_code_of(s: LlvmAotStatus) -> Option<Seq<char>> {
    match s {
        LlvmAotStatus::LoweringUnsupported => Some("AOT2001"@),
        LlvmAotStatus::LinkSkipped => Some("AOT1000"@),
        LlvmAotStatus::ToolchainMissing => Some("AOT1001"@),
        LlvmAotStatus::ToolchainFailed => Some("AOT1002"@),
        _ => None,
    }
}

/// The blocker category reported for a status.
pub open spec fn blocker_category_of(s: LlvmAotStatus) -> Option<Seq<char>> {
    match s {
        LlvmAotStatus::LoweringUnsupported => Some("llvm_lowering"@),
        LlvmAotStatus::LinkSkipped
        | LlvmAotStatus::ToolchainMissing
        | LlvmAotStatus::ToolchainFailed => Some("toolchain"@),
        _ => None,
    }
}

/// The blocker message reported for a status.
pub open spec fn blocker_message_of(s: LlvmAotStatus) -> Option<Seq<char>> {
    match s {
        LlvmAotStatus::LoweringUnsupported => Some(
            "LLVM IR generation was skipped because the current MIR uses features outside the LLVM AOT v0 subset"@,
        ),
        LlvmAotStatus::LinkSkipped => Some(
            "LLVM IR was generated, but executable linking is disabled; use --emit exe or set AX_LLVM_AOT_LINK=1 to let axc build try clang"@,
        ),
        LlvmAotStatus::ToolchainMissing => Some(
            "LLVM IR was generated, but clang was not found for executable linking"@,
        ),
        LlvmAotStatus::ToolchainFailed => Some(
            "LLVM IR was generated, but clang failed while linking the executable artifact"@,
        ),
        _ => None,
    }
}

/// The view of an optional static string.
pub open spec fn opt_view(o: Option<&'static str>) -> Option<Seq<char>> {
    match o {
        Some(s) => Some(s@),
        None => None,
    }
}

impl LlvmAotStatus {
    /// The status word recorded for the build.
    pub fn as_manifest_status(self) -> (r: &'static str)
        ensures
            r@ == manifest_status(self),
    {
        match self {
            LlvmAotStatus::Unsupported => "unsupported",
            LlvmAotStatus::LoweringUnsupported => "unsupported",
            LlvmAotStatus::IrGenerated
            | LlvmAotStatus::LinkSkipped
            | LlvmAotStatus::ToolchainMissing
            | LlvmAotStatus::ToolchainFailed => "ir_generated",
            LlvmAotStatus::Built => "built",
        }
    }

    /// The diagnostic code of the blocker this status stands for.
    pub fn blocker_code(self) -> (r: Option<&'static str>)
        ensures
            opt_view(r) == blocker_code_of(self),
    {
        match self {
            LlvmAotStatus::LoweringUnsupported => Some("AOT2001"),
            LlvmAotStatus::LinkSkipped => Some("AOT1000"),
            LlvmAotStatus::ToolchainMissing => Some("AOT1001"),
            LlvmAotStatus::ToolchainFailed => Some("AOT1002"),
            LlvmAotStatus::Unsupported | LlvmAotStatus::IrGenerated | LlvmAotStatus::Built => None,
        }
    }

    /// The category of the blocker this status stands for.
    pub fn blocker_category(self) -> (r: Option<&'static str>)
        ensures
            opt_view(r) == blocker_category_of(self),
    {
        match self {
            LlvmAotStatus::LoweringUnsupported => Some("llvm_lowering"),
            LlvmAotStatus::LinkSkipped
            | LlvmAotStatus::ToolchainMissing
            | LlvmAotStatus::ToolchainFailed => Some("toolchain"),
            LlvmAotStatus::Unsupported | LlvmAotStatus::IrGenerated | LlvmAotStatus::Built => None,
        }
    }

    /// The user-facing explanation of the blocker this status stands for.
    pub fn blocker_message(self) -> (r: Option<&'static str>)
        ensures
            opt_view(r) == blocker_message_of(self),
    {
        match self {
            LlvmAotStatus::LoweringUnsupported => Some(
                "LLVM IR generation was skipped because the current MIR uses features outside the LLVM AOT v0 subset",
            ),
            LlvmAotStatus::LinkSkipped => Some(
                "LLVM IR was generated, but executable linking is disabled; use --emit exe or set AX_LLVM_AOT_LINK=1 to let axc build try clang",
            ),
            LlvmAotStatus::ToolchainMissing => Some(
                "LLVM IR was generated, but clang was not found for executable linking",
            ),
            LlvmAotStatus::ToolchainFailed => Some(
                "LLVM IR was generated, but clang failed while linking the executable artifact",
            ),
            LlvmAotStatus::Unsupported | LlvmAotStatus::IrGenerated | LlvmAotStatus::Built => None,
        }
    }
}

/// A status blocks the executable exactly when it has a blocker code, and
/// then it also has a category and a message: the three come together.
pub proof fn blocker_fields_agree(s: LlvmAotStatus)
    ensures
        blocker_code_of(s) is Some <==> blocker_category_of(s) is Some,
        blocker_code_of(s) is Some <==> blocker_message_of(s) is Some,
        blocker_code_of(s) is Some <==> (s != LlvmAotStatus::Unsupported && s
            != LlvmAotStatus::IrGenerated && s != LlvmAotStatus::Built),
{
}

/// Only a built executable reports `built`; a status reports `unsupported`
/// exactly when no LLVM IR was produced.
pub proof fn manifest_status_classifies(s: LlvmAotStatus)
    ensures
        (manifest_status(s) == "built"@) <==> s == LlvmAotStatus::Built,
        (manifest_status(s) == "unsupported"@) <==> (s == LlvmAotStatus::Unsupported || s
            == LlvmAotStatus::LoweringUnsupported),
{
    reveal_strlit("built");
    reveal_strlit("unsupported");
    reveal_strlit("ir_generated");
    assert("built"@.len() == 5);
    assert("unsupported"@.len() == 11);
    assert("ir_generated"@.len() == 12);
}

/// Whether the build links an executable after emitting IR.
#[derive(Debug, Clone, Copy, PartialEq, Eq, Structural)]
pub enum LlvmAotLinkMode {
    Environment,
    Force,
    Skip,
}

/// The linking step a link mode calls for once the IR is written.
#[derive(Debug, Clone, Copy, PartialEq, Eq, Structural)]
pub enum LinkStep {
    /// Link when the environment turns linking on, else skip.
    LinkIfEnabled,
    /// Link unconditionally.
    Link,
    /// Do not link.
    Skip,
}

/// The linking step for `mode`: the environment decides under
/// `Environment`, `Force` always links and `Skip` never does.
pub fn link_step(mode: LlvmAotLinkMode) -> (r: LinkStep)
    ensures
        r == match mode {
            LlvmAotLinkMode::Environment => LinkStep::LinkIfEnabled,
            LlvmAotLinkMode::Force => LinkStep::Link,
            LlvmAotLinkMode::Skip => LinkStep::Skip,
        },
{
    match mode {
        LlvmAotLinkMode::Environment => LinkStep::LinkIfEnabled,
        LlvmAotLinkMode::Force => LinkStep::Link,
        LlvmAotLinkMode::Skip => LinkStep::Skip,
    }
}

/// Where and under which name an LLVM AOT build writes its artifacts.
#[derive(Debug, Clone)]
pub struct LlvmAotOptions<'a> {
    pub out_dir: &'a str,
    pub target_name: &'a str,
    pub executable_suffix: &'a str,
    pub link_mode: LlvmAotLinkMode,
}

/// What an LLVM AOT build produced.
#[derive(Debug, Clone)]
pub struct LlvmAotResult {
    pub status: LlvmAotStatus,
    pub llvm_ir_artifact: Option<String>,
    pub executable_artifact: Option<String>,
    pub notes: Vec<String>,
}

/// The directory, relative to the output directory, that holds generated IR.
pub const GENERATED_DIR: &'static str = "generated";

/// The file name of the generated LLVM module.
pub const LLVM_IR_FILE: &'static str = "main.ll";

/// The artifact path of the LLVM module, relative to the output directory.
pub fn llvm_ir_artifact_path() -> (r: String)
    ensures
        r@ == "generated/main.ll"@,
{
    let mut path = owned(GENERATED_DIR);
    path.append("/");
    path.append(LLVM_IR_FILE);
    proof {
        reveal_strlit("generated/main.ll");
        reveal_strlit("generated");
        reveal_strlit("/");
        reveal_strlit("main.ll");
    }
    assert(path@ =~= "generated/main.ll"@);
    path
}

/// The artifact path of the executable: `bin/<target><suffix>`.
pub fn executable_artifact_path(target_name: &str, executable_suffix: &str) -> (r: String)
    ensures
        r@ == "bin/"@ + target_name@ + executable_suffix@,
{
    let mut path = owned("bin/");
    path.append(target_name);
    path.append(executable_suffix);
    path
}

/// The view of a string with every `\` replaced by `/`.
pub open spec fn forward_slashes(s: Seq<char>) -> Seq<char> {
    Seq::new(s.len(), |i: int| if s[i] == '\\' { '/' } else { s[i] })
}

/// Rewrites Windows path separators to `/`.
pub fn with_forward_slashes(path: &str) -> (r: String)
    ensures
        r@ == forward_slashes(path@),
{
    let mut out = String::new();
    for c in it: path.chars()
        invariant
            it.seq() == path@,
            out@ == forward_slashes(path@.take(it.index() as int)),
    {
        let ghost before = out@;
        if c == '\\' {
            push_char(&mut out, '/');
        } else {
            push_char(&mut out, c);
        }
        assert(forward_slashes(path@.take(it.index() + 1)) =~= before.push(
            if c == '\\' { '/' } else { c },
        ));
    }
    assert(path@.take(path@.len() as int) =~= path@);
    out
}

/// The note recorded for each reason the lowering was refused.
pub open spec fn skipped_note(reason: Seq<char>) -> Seq<char> {
    "LLVM AOT v0 skipped: "@ + reason
}

/// The result of a build whose MIR could not be lowered: no artifacts, and one
/// note per reason.
pub fn lowering_unsupported_result(reasons: Vec<String>) -> (r: LlvmAotResult)
    ensures
        r.status == LlvmAotStatus::LoweringUnsupported,
        r.llvm_ir_artifact is None,
        r.executable_artifact is None,
        r.notes@.len() == reasons@.len(),
        forall|i: int| 0 <= i < reasons@.len() ==> #[trigger] r.notes@[i]@ == skipped_note(reasons@[i]@),
{
    let mut notes: Vec<String> = Vec::new();
    let mut i: usize = 0;
    while i < reasons.len()
        invariant
            i <= reasons@.len(),
            notes@.len() == i,
            forall|j: int| 0 <= j < i ==> #[trigger] notes@[j]@ == skipped_note(reasons@[j]@),
        decreases reasons@.len() - i,
    {
        let mut note = owned("LLVM AOT v0 skipped: ");
        note.append(reasons[i].as_str());
        notes.push(note);
        i += 1;
    }
    LlvmAotResult {
        status: LlvmAotStatus::LoweringUnsupported,
        llvm_ir_artifact: None,
        executable_artifact: None,
        notes,
    }
}

/// The note that opens every build that produced IR.
pub open spec fn generated_note() -> Seq<char> {
    "LLVM AOT v0 generated textual LLVM IR for the current single-file MIR subset."@
}

/// The note added when linking was not requested.
pub open spec fn not_requested_note() -> Seq<char> {
    "LLVM executable linking was not requested; --emit ir/--no-link keeps IR as the build artifact."@
}

/// The result of a build that emitted IR and was asked not to link.
pub fn ir_only_result(llvm_ir_artifact: String) -> (r: LlvmAotResult)
    ensures
        r.status == LlvmAotStatus::IrGenerated,
        r.llvm_ir_artifact == Some(llvm_ir_artifact),
        r.executable_artifact is None,
        r.notes@.len() == 2,
        r.notes@[0]@ == generated_note(),
        r.notes@[1]@ == not_requested_note(),
{
    let mut notes: Vec<String> = Vec::new();
    notes.push(owned("LLVM AOT v0 generated textual LLVM IR for the current single-file MIR subset."));
    notes.push(owned(
        "LLVM executable linking was not requested; --emit ir/--no-link keeps IR as the build artifact.",
    ));
    LlvmAotResult {
        status: LlvmAotStatus::IrGenerated,
        llvm_ir_artifact: Some(llvm_ir_artifact),
        executable_artifact: None,
        notes,
    }
}

/// The status that a link outcome leaves the build in.
pub open spec fn status_after_link(outcome: LinkOutcome) -> LlvmAotStatus {
    match outcome {
        LinkOutcome::Skipped => LlvmAotStatus::LinkSkipped,
        LinkOutcome::ToolchainMissing { .. } => LlvmAotStatus::ToolchainMissing,
        LinkOutcome::Failed { .. } => LlvmAotStatus::ToolchainFailed,
        LinkOutcome::Built { .. } => LlvmAotStatus::Built,
    }
}

/// The note that reports a link outcome.
pub open spec fn link_note(outcome: LinkOutcome) -> Seq<char> {
    match outcome {
        LinkOutcome::Skipped =>
            "LLVM executable linking was skipped; use --emit exe or set AX_LLVM_AOT_LINK=1 to try clang."@,
        LinkOutcome::ToolchainMissing { compiler } =>
            "LLVM executable linking requested, but `"@ + compiler@ + "` was not found."@,
        LinkOutcome::Failed { compiler, exit_code, stderr } =>
            "LLVM executable linking with `"@ + compiler@ + "` failed with exit code "@
                + exit_code@ + ": "@ + stderr@,
        LinkOutcome::Built { compiler } =>
            "LLVM executable artifact was linked with `"@ + compiler@ + "`."@,
    }
}

/// The result of a build that emitted IR and then tried to link it: the
/// status follows the link outcome, the executable is reported only when it
/// was built, and the outcome is recorded as a second note.
pub fn linked_result(
    outcome: LinkOutcome,
    llvm_ir_artifact: String,
    executable_artifact: &str,
) -> (r: LlvmAotResult)
    ensures
        r.status == status_after_link(outcome),
        r.llvm_ir_artifact == Some(llvm_ir_artifact),
        r.executable_artifact matches Some(e) ==> e@ == forward_slashes(executable_artifact@),
        r.executable_artifact is Some <==> outcome is Built,
        r.notes@.len() == 2,
        r.notes@[0]@ == generated_note(),
        r.notes@[1]@ == link_note(outcome),
{
    let mut notes: Vec<String> = Vec::new();
    notes.push(owned("LLVM AOT v0 generated textual LLVM IR for the current single-file MIR subset."));
    match outcome {
        LinkOutcome::Skipped => {
            notes.push(owned(
                "LLVM executable linking was skipped; use --emit exe or set AX_LLVM_AOT_LINK=1 to try clang.",
            ));
            LlvmAotResult {
                status: LlvmAotStatus::LinkSkipped,
                llvm_ir_artifact: Some(llvm_ir_artifact),
                executable_artifact: None,
                notes,
            }
        },
        LinkOutcome::ToolchainMissing { compiler } => {
            let mut note = owned("LLVM executable linking requested, but `");
            note.append(compiler.as_str());
            note.append("` was not found.");
            notes.push(note);
            LlvmAotResult {
                status: LlvmAotStatus::ToolchainMissing,
                llvm_ir_artifact: Some(llvm_ir_artifact),
                executable_artifact: None,
                notes,
            }
        },
        LinkOutcome::Failed { compiler, exit_code, stderr } => {
            let mut note = owned("LLVM executable linking with `");
            note.append(compiler.as_str());
            note.append("` failed with exit code ");
            note.append(exit_code.as_str());
            note.append(": ");
            note.append(stderr.as_str());
            notes.push(note);
            LlvmAotResult {
                status: LlvmAotStatus::ToolchainFailed,
                llvm_ir_artifact: Some(llvm_ir_artifact),
                executable_artifact: None,
                notes,
            }
        },
        LinkOutcome::Built { compiler } => {
            let mut note = owned("LLVM executable artifact was linked with `");
            note.append(compiler.as_str());
            note.append("`.");
            notes.push(note);
            LlvmAotResult {
                status: LlvmAotStatus::Built,
                llvm_ir_artifact: Some(llvm_ir_artifact),
                executable_artifact: Some(with_forward_slashes(executable_artifact)),
                notes,
            }
        },
    }
}

} // verus!
