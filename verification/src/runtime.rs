//! The guest runtime, as far as the library relies on it. Nothing in this file is
//! proved: each item states what the library takes from the runtime on trust.

use vstd::prelude::*;

verus! {

/// `wasmtime::Engine`: the shared compilation context.
#[verifier::external_type_specification]
#[verifier::external_body]
pub struct ExEngine(wasmtime::Engine);

/// `wasmtime::Module`: one compiled guest binary.
#[verifier::external_type_specification]
#[verifier::external_body]
pub struct ExModule(wasmtime::Module);

/// `wasmtime::Error`: why the runtime refused a module or a run failed.
#[verifier::external_type_specification]
#[verifier::external_body]
pub struct ExRuntimeError(wasmtime::Error);

/// `wasi_common::WasiCtx`: the system interface that one guest instance sees.
#[verifier::external_type_specification]
#[verifier::external_body]
pub struct ExWasiCtx(wasi_common::WasiCtx);

/// `wasi_common::StringArrayError`: an argument list too large for a guest.
#[verifier::external_type_specification]
#[verifier::external_body]
pub struct ExStringArrayError(wasi_common::StringArrayError);

/// `std::string::FromUtf8Error`: why bytes are no UTF-8 text.
#[verifier::external_type_specification]
#[verifier::external_body]
pub struct ExFromUtf8Error(std::string::FromUtf8Error);

/// A handle to an in-memory sink that a guest writes its standard output to:
/// `wasi_common::pipe::WritePipe` over a byte buffer. Handles made by
/// [`share_sink`] lead to the same buffer.
#[verifier::external_body]
pub struct OutputSink {
    pipe: wasi_common::pipe::WritePipe<std::io::Cursor<Vec<u8>>>,
}

/// `Engine::default`: a compilation context with the default configuration.
/// Nothing is claimed of it.
#[verifier::external_body]
pub(crate) fn new_engine() -> (engine: wasmtime::Engine) {
    wasmtime::Engine::default()
}

/// Whether `Module::new` accepts `bytes` as a module for `engine`: whether they
/// decode, validate and compile under the engine's configuration.
pub uninterp spec fn spec_accepts(engine: wasmtime::Engine, bytes: Seq<u8>) -> bool;

/// Whether `module` exports a function under `name`, as `Module::get_export`
/// tells.
pub uninterp spec fn spec_exports_function(module: wasmtime::Module, name: Seq<char>) -> bool;

/// `Module::new`: compiles a guest binary, or its text form, that is held in
/// memory. It is claimed that whether the call succeeds depends on the engine
/// and the bytes alone; which bytes the runtime accepts is not claimed.
#[verifier::external_body]
pub(crate) fn compile(engine: &wasmtime::Engine, bytes: &Vec<u8>) -> (compiled: Result<
    wasmtime::Module,
    wasmtime::Error,
>)
    ensures
        compiled is Ok <==> spec_accepts(*engine, bytes@),
{
    wasmtime::Module::new(engine, bytes)
}

/// `Module::get_export`: whether `module` has an export named `name` that is a
/// function. It is claimed that the answer depends on the module and the name
/// alone; which functions a module exports is not claimed.
#[verifier::external_body]
pub(crate) fn exports_function(module: &wasmtime::Module, name: &str) -> (found: bool)
    ensures
        found == spec_exports_function(*module, name@),
{
    match module.get_export(name) {
        Some(wasmtime::ExternType::Func(_)) => true,
        _ => false,
    }
}

/// `WritePipe::new_in_memory`: a fresh sink backed by an empty byte buffer.
/// Nothing is claimed of it.
#[verifier::external_body]
pub(crate) fn memory_sink() -> (sink: OutputSink) {
    OutputSink { pipe: wasi_common::pipe::WritePipe::new_in_memory() }
}

/// `WritePipe::clone`: a second handle to the buffer behind `sink`. Nothing is
/// claimed of it.
#[verifier::external_body]
pub(crate) fn share_sink(sink: &OutputSink) -> (shared: OutputSink) {
    OutputSink { pipe: sink.pipe.clone() }
}

/// `WritePipe::try_into_inner`, then `Cursor::into_inner`: the bytes written to
/// the buffer behind `sink`. The runtime hands the buffer out only to its last
/// handle, so `None` means that another handle is still alive. When that is, is
/// not claimed.
#[verifier::external_body]
pub(crate) fn drain_sink(sink: OutputSink) -> (bytes: Option<Vec<u8>>) {
    match sink.pipe.try_into_inner() {
        Ok(buffer) => Some(buffer.into_inner()),
        Err(_) => None,
    }
}

/// The system interface of one run, by one `WasiCtxBuilder` from `new` to
/// `build`, with `stdin`, `stdout` and `args` set in between: the guest is to get
/// `args` as its argument vector, the bytes of `stdin` through a `ReadPipe` on its
/// standard input, `stdout` as its standard output, and neither files nor
/// environment variables. The builder refuses argument lists beyond the sizes
/// that a guest can address. Nothing is claimed of the result.
#[verifier::external_body]
pub(crate) fn isolated_context(stdin: String, stdout: OutputSink, args: &Vec<String>) -> (context:
    Result<wasi_common::WasiCtx, wasi_common::StringArrayError>) {
    let mut builder = wasi_common::sync::WasiCtxBuilder::new();
    builder
        .stdin(Box::new(wasi_common::pipe::ReadPipe::from(stdin)))
        .stdout(Box::new(stdout.pipe))
        .args(args)?;
    Ok(builder.build())
}

/// Runs `module` once in a store of its own: `Linker::new` and
/// `wasi_common::sync::add_to_linker`, `Store::new` with `context`,
/// `Linker::module` under `name`, and `TypedFunc::call` on the default export that
/// `Linker::get_default` finds. Linker, store and function are made here for the
/// one engine and never leave, so none of them meets a stranger. The store, and
/// with it `context`, is dropped before this returns. Nothing is claimed of the
/// result: what a guest does is its own affair.
#[verifier::external_body]
pub(crate) fn run_command(
    engine: &wasmtime::Engine,
    module: &wasmtime::Module,
    context: wasi_common::WasiCtx,
    name: &str,
) -> (ran: Result<(), wasmtime::Error>) {
    let mut linker = wasmtime::Linker::new(engine);
    wasi_common::sync::add_to_linker(&mut linker, |s| s)?;
    let mut store = wasmtime::Store::new(engine, context);
    linker.module(&mut store, name, module)?;
    let entry = linker.get_default(&mut store, name)?;
    entry.typed::<(), ()>(&store)?.call(&mut store, ())
}

/// `String::from_utf8`: the text that `bytes` encode. It is claimed that the
/// call succeeds exactly on well-formed UTF-8, and that the string then holds the
/// characters that the bytes encode.
#[verifier::external_body]
pub(crate) fn decode_text(bytes: Vec<u8>) -> (text: Result<String, std::string::FromUtf8Error>)
    ensures
        match text {
            Ok(s) => vstd::utf8::valid_utf8(bytes@) && s@ == vstd::utf8::decode_utf8(bytes@),
            Err(_) => !vstd::utf8::valid_utf8(bytes@),
        },
{
    String::from_utf8(bytes)
}

/// The `Debug` text of a `wasmtime::Error`, with the chain of its causes.
/// Nothing is claimed of the text.
#[verifier::external_body]
pub(crate) fn describe_failure(error: &wasmtime::Error) -> (text: String) {
    format!("{:?}", error)
}

/// The `Display` text of a `wasi_common::StringArrayError`. Nothing is claimed
/// of the text.
#[verifier::external_body]
pub(crate) fn describe_refusal(error: &wasi_common::StringArrayError) -> (text: String) {
    format!("{}", error)
}

} // verus!
