//! Diagnostics raised while lowering MIR to LLVM IR, each tagged with the
//! layer of the backend that raised it.
use vstd::prelude::*;

verus! {

/// The part of the backend a diagnostic comes from.
#[derive(Debug, Clone, Copy, PartialEq, Eq, Structural)]
pub enum AotDiagnosticLayer {
    AotReadiness,
    Monomorphization,
    RuntimeAbi,
    LlvmLowering,
    Toolchain,
    Internal,
}

/// The name each layer is reported under.
pub open spec fn layer_name(layer: AotDiagnosticLayer) -> Seq<char> {
    match layer {
        AotDiagnosticLayer::AotReadiness => "aot_readiness"@,
        AotDiagnosticLayer::Monomorphization => "monomorphization"@,
        AotDiagnosticLayer::RuntimeAbi => "runtime_abi"@,
        AotDiagnosticLayer::LlvmLowering => "llvm_lowering"@,
        AotDiagnosticLayer::Toolchain => "toolchain"@,
        AotDiagnosticLayer::Internal => "internal_compiler_error"@,
    }
}

impl AotDiagnosticLayer {
    pub fn as_str(self) -> (r: &'static str)
        ensures
            r@ == layer_name(self),
    {
        match self {
            AotDiagnosticLayer::AotReadiness => "aot_readiness",
            AotDiagnosticLayer::Monomorphization => "monomorphization",
            AotDiagnosticLayer::RuntimeAbi => "runtime_abi",
            AotDiagnosticLayer::LlvmLowering => "llvm_lowering",
            AotDiagnosticLayer::Toolchain => "toolchain",
            AotDiagnosticLayer::Internal => "internal_compiler_error",
        }
    }
}

/// A reason the backend cannot lower a program.
#[derive(Debug, Clone)]
pub struct AotLoweringDiagnostic {
    pub layer: AotDiagnosticLayer,
    pub code: &'static str,
    pub feature: Option<String>,
    pub message: String,
}

impl AotLoweringDiagnostic {
    pub fn new(
        layer: AotDiagnosticLayer,
        code: &'static str,
        feature: Option<String>,
        message: String,
    ) -> (r: Self)
        ensures
            r.layer == layer,
            r.code == code,
            r.feature == feature,
            r.message == message,
    {
        AotLoweringDiagnostic { layer, code, feature, message }
    }

    /// A feature the AOT subset does not support.
    pub fn aot_readiness(feature: String, message: String) -> (r: Self)
        ensures
            r.layer == AotDiagnosticLayer::AotReadiness,
            r.code@ == "AOT2000"@,
            r.feature == Some(feature),
            r.message == message,
    {
        Self::new(AotDiagnosticLayer::AotReadiness, "AOT2000", Some(feature), message)
    }

    /// A generic function or type that could not be specialised.
    pub fn monomorphization(message: String) -> (r: Self)
        ensures
            r.layer == AotDiagnosticLayer::Monomorphization,
            r.code@ == "AOT2100"@,
            r.feature is None,
            r.message == message,
    {
        Self::new(AotDiagnosticLayer::Monomorphization, "AOT2100", None, message)
    }

    /// A type or value with no native runtime ABI.
    pub fn runtime_abi(feature: String, message: String) -> (r: Self)
        ensures
            r.layer == AotDiagnosticLayer::RuntimeAbi,
            r.code@ == "AOT2200"@,
            r.feature == Some(feature),
            r.message == message,
    {
        Self::new(AotDiagnosticLayer::RuntimeAbi, "AOT2200", Some(feature), message)
    }

    /// A construct the IR emitter could not lower.
    pub fn llvm_lowering(message: String) -> (r: Self)
        ensures
            r.layer == AotDiagnosticLayer::LlvmLowering,
            r.code@ == "AOT2001"@,
            r.feature is None,
            r.message == message,
    {
        Self::new(AotDiagnosticLayer::LlvmLowering, "AOT2001", None, message)
    }

    /// A broken invariant of the backend itself.
    pub fn internal(message: String) -> (r: Self)
        ensures
            r.layer == AotDiagnosticLayer::Internal,
            r.code@ == "AOT9000"@,
            r.feature is None,
            r.message == message,
    {
        Self::new(AotDiagnosticLayer::Internal, "AOT9000", None, message)
    }

    /// The text shown to the user.
    pub fn user_message(&self) -> (r: String)
        ensures
            r == self.message,
    {
        self.message.clone()
    }
}

/// The user-facing messages of a list of diagnostics, in order.
pub fn user_messages(diagnostics: Vec<AotLoweringDiagnostic>) -> (r: Vec<String>)
    ensures
        r@.len() == diagnostics@.len(),
        forall|i: int| 0 <= i < r@.len() ==> #[trigger] r@[i] == diagnostics@[i].message,
{
    let mut messages: Vec<String> = Vec::new();
    let mut i: usize = 0;
    while i < diagnostics.len()
        invariant
            i <= diagnostics@.len(),
            messages@.len() == i,
            forall|j: int| 0 <= j < i ==> #[trigger] messages@[j] == diagnostics@[j].message,
        decreases diagnostics@.len() - i,
    {
        messages.push(diagnostics[i].user_message());
        i += 1;
    }
    messages
}

} // verus!
