//! Assembly of a transaction payload from compiled artifacts or a function
//! reference.
//!
//! A payload is one of three shapes — deploy a package, run an ad-hoc
//! script, or call a published function — and exactly one shape is ever
//! built per request: a request supplying both a script body and a function
//! reference is rejected before any payload exists, as is one supplying
//! neither. Whether a compiled artifact is a module or a script is
//! determined by the artifact's own compiler-assigned tag, never by a
//! filename or source heuristic.

use vstd::prelude::*;

use crate::args::{arg_bcs_list, convert_txn_args, ArgumentsView, TransactionArgument};
use crate::errors::{ConfigIssue, PipelineError};
use crate::ids::{ByteCodeOrScriptFunction, FunctionId, Identifier, ModuleId};
use crate::typetag::{all_tags_wf, TypeTag};

verus! {

/// An ad-hoc script: its bytecode, type arguments, and arguments in
/// canonical serialized-bytes form.
#[derive(Debug, PartialEq, Eq)]
pub struct Script {
    pub code: Vec<u8>,
    pub ty_args: Vec<TypeTag>,
    pub args: Vec<Vec<u8>>,
}

impl Script {
    /// Bundles script bytecode with its arguments.
    pub fn new(code: Vec<u8>, ty_args: Vec<TypeTag>, args: Vec<Vec<u8>>) -> (r: Script)
        ensures
            r.code == code,
            r.ty_args == ty_args,
            r.args == args,
    {
        Script { code, ty_args, args }
    }
}

/// A call to an already-published function: its reference, type arguments,
/// and arguments in canonical serialized-bytes form.
#[derive(Debug, PartialEq, Eq)]
pub struct ScriptFunction {
    pub module: ModuleId,
    pub function: Identifier,
    pub ty_args: Vec<TypeTag>,
    pub args: Vec<Vec<u8>>,
}

impl ScriptFunction {
    /// Bundles a function reference with its arguments.
    pub fn new(module: ModuleId, function: Identifier, ty_args: Vec<TypeTag>, args: Vec<Vec<u8>>) -> (r:
        ScriptFunction)
        ensures
            r.module == module,
            r.function == function,
            r.ty_args == ty_args,
            r.args == args,
    {
        ScriptFunction { module, function, ty_args, args }
    }
}

/// One compiled module's bytecode.
#[derive(Debug, PartialEq, Eq)]
pub struct Module {
    pub code: Vec<u8>,
}

impl Module {
    /// Wraps module bytecode.
    pub fn new(code: Vec<u8>) -> (r: Module)
        ensures
            r.code == code,
    {
        Module { code }
    }
}

/// A package deploy: an ordered sequence of module bytecode blobs, and an
/// optional initializer call executed atomically with the deploy.
#[derive(Debug, PartialEq, Eq)]
pub struct Package {
    pub modules: Vec<Module>,
    pub init_script: Option<ScriptFunction>,
}

impl Package {
    /// Bundles modules with an optional initializer. A deploy with no
    /// module at all is rejected.
    pub fn new(modules: Vec<Module>, init_script: Option<ScriptFunction>) -> (r: Result<
        Package,
        PipelineError,
    >)
        ensures
            match r {
                Ok(p) => modules@.len() > 0 && p.modules == modules && p.init_script
                    == init_script,
                Err(e) => modules@.len() == 0 && e == PipelineError::ConfigError(
                    ConfigIssue::EmptyPackage,
                ),
            },
    {
        if modules.len() == 0 {
            return Err(PipelineError::ConfigError(ConfigIssue::EmptyPackage));
        }
        Ok(Package { modules, init_script })
    }
}

/// The operation a transaction requests: exactly one of the three shapes.
/// Every consumer matches all three variants with no default branch, so a
/// new payload kind is a compile-time-checked change everywhere.
#[derive(Debug, PartialEq, Eq)]
pub enum TransactionPayload {
    Script(Script),
    Package(Package),
    ScriptFunction(ScriptFunction),
}

impl Script {
    /// A well-formed script: every type argument is valid.
    pub open spec fn wf(&self) -> bool {
        all_tags_wf(self.ty_args@)
    }
}

impl ScriptFunction {
    /// A well-formed call: the reference and every type argument are valid.
    pub open spec fn wf(&self) -> bool {
        self.module.wf() && self.function.wf() && all_tags_wf(self.ty_args@)
    }
}

impl Package {
    /// A well-formed package: at least one module, and a valid initializer
    /// if one is present.
    pub open spec fn wf(&self) -> bool {
        self.modules@.len() > 0 && match self.init_script {
            Some(init) => init.wf(),
            None => true,
        }
    }
}

impl TransactionPayload {
    /// A well-formed payload.
    pub open spec fn wf(&self) -> bool {
        match self {
            TransactionPayload::Script(s) => s.wf(),
            TransactionPayload::Package(p) => p.wf(),
            TransactionPayload::ScriptFunction(f) => f.wf(),
        }
    }
}

// ---------------------------------------------------------------------------
// the wire shape of a script-or-call request
// ---------------------------------------------------------------------------

/// A script body or function reference as it arrives on the wire, together
/// with its type arguments and direction-dependent argument list.
#[derive(Debug, PartialEq, Eq)]
pub struct ScriptData {
    pub code: ByteCodeOrScriptFunction,
    pub type_args: Vec<TypeTag>,
    pub args: ArgumentsView,
}

impl ScriptData {
    /// Resolves the request into an ad-hoc script (`Ok`) or a call to a
    /// published function (`Err`), normalizing the arguments to canonical
    /// bytes either way.
    pub fn into_data(self) -> (r: Result<Script, ScriptFunction>)
        ensures
            match r {
                Ok(script) => self.code matches ByteCodeOrScriptFunction::ByteCode(c) && script.code
                    == c && script.ty_args == self.type_args && script.args.deep_view()
                    == self.args.bcs_bytes_spec(),
                Err(call) => self.code matches ByteCodeOrScriptFunction::ScriptFunction(f)
                    && call.module == f.module && call.function == f.function && call.ty_args
                    == self.type_args && call.args.deep_view() == self.args.bcs_bytes_spec(),
            },
    {
        let ScriptData { code, type_args, args } = self;
        let arg_bytes = args.to_bcs_bytes();
        match code {
            ByteCodeOrScriptFunction::ByteCode(c) => Ok(Script::new(c, type_args, arg_bytes)),
            ByteCodeOrScriptFunction::ScriptFunction(f) => {
                let FunctionId { module, function } = f;
                Err(ScriptFunction::new(module, function, type_args, arg_bytes))
            },
        }
    }

    /// The request as a function call. Fails when it holds a script body.
    pub fn into_script_function(self) -> (r: Result<ScriptFunction, PipelineError>)
        ensures
            match r {
                Ok(call) => self.code matches ByteCodeOrScriptFunction::ScriptFunction(f)
                    && call.module == f.module && call.function == f.function && call.ty_args
                    == self.type_args && call.args.deep_view() == self.args.bcs_bytes_spec(),
                Err(e) => self.code is ByteCode && e == PipelineError::ConfigError(
                    ConfigIssue::NotAFunctionCall,
                ),
            },
    {
        match self.into_data() {
            Err(script_function) => Ok(script_function),
            Ok(_) => Err(PipelineError::ConfigError(ConfigIssue::NotAFunctionCall)),
        }
    }

    /// The request as an ad-hoc script. Fails when it holds a function
    /// reference.
    pub fn into_script(self) -> (r: Result<Script, PipelineError>)
        ensures
            match r {
                Ok(script) => self.code matches ByteCodeOrScriptFunction::ByteCode(c) && script.code
                    == c && script.ty_args == self.type_args && script.args.deep_view()
                    == self.args.bcs_bytes_spec(),
                Err(e) => self.code is ScriptFunction && e == PipelineError::ConfigError(
                    ConfigIssue::NotAScript,
                ),
            },
    {
        match self.into_data() {
            Ok(script) => Ok(script),
            Err(_) => Err(PipelineError::ConfigError(ConfigIssue::NotAScript)),
        }
    }

    /// The request as a payload: a script body becomes a `Script` payload,
    /// a function reference a `ScriptFunction` payload.
    pub fn into_payload(self) -> (r: TransactionPayload)
        ensures
            match r {
                TransactionPayload::Script(script) => self.code matches
                    ByteCodeOrScriptFunction::ByteCode(c) && script.code == c && script.ty_args
                    == self.type_args && script.args.deep_view() == self.args.bcs_bytes_spec(),
                TransactionPayload::ScriptFunction(call) => self.code matches
                    ByteCodeOrScriptFunction::ScriptFunction(f) && call.module == f.module
                    && call.function == f.function && call.ty_args == self.type_args
                    && call.args.deep_view() == self.args.bcs_bytes_spec(),
                TransactionPayload::Package(_) => false,
            },
    {
        match self.into_data() {
            Ok(script) => TransactionPayload::Script(script),
            Err(func) => TransactionPayload::ScriptFunction(func),
        }
    }

    /// The wire form of an ad-hoc script: its arguments travel outbound, so
    /// they are rendered in canonical serialized-bytes form.
    pub fn from_script(s: Script) -> (r: ScriptData)
        ensures
            r.code == ByteCodeOrScriptFunction::ByteCode(s.code),
            r.type_args == s.ty_args,
            r.args matches ArgumentsView::BCS(b) && b == s.args,
    {
        let Script { code, ty_args, args } = s;
        ScriptData {
            code: ByteCodeOrScriptFunction::ByteCode(code),
            type_args: ty_args,
            args: ArgumentsView::BCS(args),
        }
    }

    /// The wire form of a function call, arguments in canonical
    /// serialized-bytes form.
    pub fn from_script_function(s: ScriptFunction) -> (r: ScriptData)
        ensures
            r.code matches ByteCodeOrScriptFunction::ScriptFunction(f) && f.module == s.module
                && f.function == s.function,
            r.type_args == s.ty_args,
            r.args matches ArgumentsView::BCS(b) && b == s.args,
    {
        let ScriptFunction { module, function, ty_args, args } = s;
        ScriptData {
            code: ByteCodeOrScriptFunction::ScriptFunction(FunctionId { module, function }),
            type_args: ty_args,
            args: ArgumentsView::BCS(args),
        }
    }
}

// ---------------------------------------------------------------------------
// the payload builder
// ---------------------------------------------------------------------------

/// A compiled artifact: bytecode together with the compiler's own tag
/// saying whether it is a script or a module.
#[derive(Debug, PartialEq, Eq)]
pub struct CompiledArtifact {
    pub bytecode: Vec<u8>,
    pub is_script: bool,
}

/// Picks the artifact a compilation's output builds the payload from.
/// When a single compilation produces several units, only the **last** one
/// is used and the earlier ones are discarded — a known limitation that is
/// preserved, not silently fixed. A compilation that produced no unit at
/// all cannot name a target and is an error.
pub fn select_artifact(units: Vec<CompiledArtifact>) -> (r: Result<
    CompiledArtifact,
    PipelineError,
>)
    ensures
        match r {
            Ok(a) => units@.len() > 0 && a == units@.last(),
            Err(e) => units@.len() == 0 && e == PipelineError::ConfigError(
                ConfigIssue::NoCompiledUnit,
            ),
        },
{
    let mut rest = units;
    let n = rest.len();
    if n == 0 {
        return Err(PipelineError::ConfigError(ConfigIssue::NoCompiledUnit));
    }
    Ok(rest.remove(n - 1))
}

/// A request naming both a script body and a function reference: an
/// ambiguous target.
pub open spec fn payload_request_ambiguous(
    artifact: Option<CompiledArtifact>,
    function_id: Option<FunctionId>,
) -> bool {
    artifact matches Some(a) && a.is_script && function_id is Some
}

/// A request naming neither a script body nor a function reference: a
/// missing target.
pub open spec fn payload_request_missing(
    artifact: Option<CompiledArtifact>,
    function_id: Option<FunctionId>,
) -> bool {
    artifact is None && function_id is None
}

/// What payload a well-shaped request builds: a module artifact deploys a
/// one-module package whose initializer is the function reference, if any;
/// a script artifact alone runs as a script; a function reference alone
/// calls a published function. Arguments always land in their canonical
/// serialized-bytes form.
pub open spec fn built_payload_matches(
    p: TransactionPayload,
    artifact: Option<CompiledArtifact>,
    function_id: Option<FunctionId>,
    type_tags: Vec<TypeTag>,
    args: Seq<TransactionArgument>,
) -> bool {
    match p {
        TransactionPayload::Package(pkg) => artifact matches Some(a) && !a.is_script
            && pkg.modules@.len() == 1 && pkg.modules@[0].code == a.bytecode && (match (
        function_id,
        pkg.init_script,
        ) {
            (Some(f), Some(init)) => init.module == f.module && init.function == f.function
                && init.ty_args == type_tags && init.args.deep_view() == arg_bcs_list(args),
            (None, None) => true,
            _ => false,
        }),
        TransactionPayload::Script(s) => artifact matches Some(a) && a.is_script && function_id
            is None && s.code == a.bytecode && s.ty_args == type_tags && s.args.deep_view()
            == arg_bcs_list(args),
        TransactionPayload::ScriptFunction(call) => artifact is None && (function_id matches Some(
            f,
        ) && call.module == f.module && call.function == f.function && call.ty_args == type_tags
            && call.args.deep_view() == arg_bcs_list(args)),
    }
}

/// Builds the payload for a request, enforcing the input-shape invariant:
/// a module artifact deploys a package (the function reference, if any,
/// becomes its initializer call); a script artifact runs as a script, and
/// giving a function reference besides it is ambiguous; a function
/// reference alone calls a published function; nothing at all is an error.
pub fn build_payload(
    artifact: Option<CompiledArtifact>,
    function_id: Option<FunctionId>,
    type_tags: Vec<TypeTag>,
    args: Vec<TransactionArgument>,
) -> (r: Result<TransactionPayload, PipelineError>)
    ensures
        match r {
            Ok(p) => built_payload_matches(p, artifact, function_id, type_tags, args@),
            Err(e) => (payload_request_ambiguous(artifact, function_id) && e
                == PipelineError::ConfigError(ConfigIssue::AmbiguousTarget)) || (
            payload_request_missing(artifact, function_id) && e == PipelineError::ConfigError(
                ConfigIssue::MissingTarget,
            )),
        },
{
    let arg_bytes = convert_txn_args(&args);
    match (artifact, function_id) {
        // package deploy, optionally with an initializer call
        (Some(a), function_id) => {
            if a.is_script {
                match function_id {
                    Some(_) => Err(PipelineError::ConfigError(ConfigIssue::AmbiguousTarget)),
                    None => Ok(
                        TransactionPayload::Script(Script::new(a.bytecode, type_tags, arg_bytes)),
                    ),
                }
            } else {
                let init = match function_id {
                    Some(f) => {
                        let FunctionId { module, function } = f;
                        Some(ScriptFunction::new(module, function, type_tags, arg_bytes))
                    },
                    None => None,
                };
                let mut modules: Vec<Module> = Vec::new();
                modules.push(Module::new(a.bytecode));
                match Package::new(modules, init) {
                    Ok(pkg) => Ok(TransactionPayload::Package(pkg)),
                    Err(e) => Err(e),
                }
            }
        },
        // call to a published function
        (None, Some(f)) => {
            let FunctionId { module, function } = f;
            Ok(
                TransactionPayload::ScriptFunction(
                    ScriptFunction::new(module, function, type_tags, arg_bytes),
                ),
            )
        },
        (None, None) => Err(PipelineError::ConfigError(ConfigIssue::MissingTarget)),
    }
}

} // verus!
