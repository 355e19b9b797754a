//! Advice for link errors: the build installs itself as the linker's error
//! handling script, and for an undefined symbol it names the piece of the
//! firmware setup that is most likely missing.

use vstd::prelude::*;
use crate::text::{starts_with, has_prefix, same_text};

verus! {

/// The piece of setup that an undefined symbol points to.
#[derive(Debug, Clone, Copy, PartialEq, Eq, Structural)]
pub enum MissingPiece {
    /// The `defmt.x` linker script or a defmt transport.
    Defmt,
    /// The `linkall.x` linker script.
    LinkallScript,
    /// A scheduler for the radio driver.
    Scheduler,
    /// The `embedded-test.x` linker script.
    EmbeddedTest,
    /// The heap allocator or its `compat` feature.
    Allocator,
}

/// The handler's answer to one linker report.
#[derive(Debug, Clone, Copy, PartialEq, Eq, Structural)]
pub enum LinkerReply {
    /// Explain the missing piece, then report success.
    Hint(MissingPiece),
    /// An undefined symbol with no advice: report success.
    NoHint,
    /// A kind of report the handler does not know: report failure.
    UnknownKind,
}

/// The C allocation symbols that the heap allocator provides.
pub open spec fn is_allocator_symbol(w: Seq<char>) -> bool {
    ||| w == "free"@
    ||| w == "malloc"@
    ||| w == "calloc"@
    ||| w == "get_free_internal_heap_size"@
    ||| w == "malloc_internal"@
    ||| w == "realloc_internal"@
    ||| w == "calloc_internal"@
    ||| w == "free_internal"@
}

/// The answer to a report of kind `kind` about the symbol `what`.
pub open spec fn linker_reply_spec(kind: Seq<char>, what: Seq<char>) -> LinkerReply {
    if kind == "undefined-symbol"@ {
        if has_prefix(what, "_defmt_"@) {
            LinkerReply::Hint(MissingPiece::Defmt)
        } else if what == "_stack_start"@ {
            LinkerReply::Hint(MissingPiece::LinkallScript)
        } else if has_prefix(what, "esp_rtos_"@) {
            LinkerReply::Hint(MissingPiece::Scheduler)
        } else if what == "embedded_test_linker_file_not_added_to_rustflags"@ {
            LinkerReply::Hint(MissingPiece::EmbeddedTest)
        } else if is_allocator_symbol(what) {
            LinkerReply::Hint(MissingPiece::Allocator)
        } else {
            LinkerReply::NoHint
        }
    } else {
        LinkerReply::UnknownKind
    }
}

fn is_allocator_name(w: &str) -> (b: bool)
    ensures
        b == is_allocator_symbol(w@),
{
    same_text(w, "free") || same_text(w, "malloc") || same_text(w, "calloc") || same_text(
        w,
        "get_free_internal_heap_size",
    ) || same_text(w, "malloc_internal") || same_text(w, "realloc_internal") || same_text(
        w,
        "calloc_internal",
    ) || same_text(w, "free_internal")
}

/// Decides how to answer the linker's report of kind `kind` about `what`.
pub fn linker_reply(kind: &str, what: &str) -> (r: LinkerReply)
    ensures
        r == linker_reply_spec(kind@, what@),
{
    if !same_text(kind, "undefined-symbol") {
        return LinkerReply::UnknownKind;
    }
    if starts_with(what, "_defmt_") {
        LinkerReply::Hint(MissingPiece::Defmt)
    } else if same_text(what, "_stack_start") {
        LinkerReply::Hint(MissingPiece::LinkallScript)
    } else if starts_with(what, "esp_rtos_") {
        LinkerReply::Hint(MissingPiece::Scheduler)
    } else if same_text(what, "embedded_test_linker_file_not_added_to_rustflags") {
        LinkerReply::Hint(MissingPiece::EmbeddedTest)
    } else if is_allocator_name(what) {
        LinkerReply::Hint(MissingPiece::Allocator)
    } else {
        LinkerReply::NoHint
    }
}

/// The advice printed for a missing piece.
pub fn hint_text(piece: MissingPiece) -> (t: &'static str)
    ensures
        t@ == match piece {
            MissingPiece::Defmt => "💡 `defmt` not found - make sure `defmt.x` is added as a linker script and you have included `use defmt_rtt as _;`"@,
            MissingPiece::LinkallScript => "💡 Is the linker script `linkall.x` missing?"@,
            MissingPiece::Scheduler => "💡 `esp-radio` has no scheduler enabled. Make sure you have initialized `esp-rtos` or provided an external scheduler."@,
            MissingPiece::EmbeddedTest => "💡 `embedded-test` not found - make sure `embedded-test.x` is added as a linker script for tests"@,
            MissingPiece::Allocator => "💡 Did you forget the `esp-alloc` dependency or didn't enable the `compat` feature on it?"@,
        },
{
    match piece {
        MissingPiece::Defmt => "💡 `defmt` not found - make sure `defmt.x` is added as a linker script and you have included `use defmt_rtt as _;`",
        MissingPiece::LinkallScript => "💡 Is the linker script `linkall.x` missing?",
        MissingPiece::Scheduler => "💡 `esp-radio` has no scheduler enabled. Make sure you have initialized `esp-rtos` or provided an external scheduler.",
        MissingPiece::EmbeddedTest => "💡 `embedded-test` not found - make sure `embedded-test.x` is added as a linker script for tests",
        MissingPiece::Allocator => "💡 Did you forget the `esp-alloc` dependency or didn't enable the `compat` feature on it?",
    }
}


/// Every undefined symbol whose name begins with `_defmt_` gets the defmt
/// advice; every other kind of report is answered as unknown.
pub proof fn lemma_defmt_symbols(kind: Seq<char>, what: Seq<char>)
    ensures
        kind == "undefined-symbol"@ && what.len() >= 7 && what.subrange(0, 7) == "_defmt_"@
            ==> linker_reply_spec(kind, what) == LinkerReply::Hint(MissingPiece::Defmt),
        kind != "undefined-symbol"@ ==> linker_reply_spec(kind, what) == LinkerReply::UnknownKind,
{
    reveal_strlit("_defmt_");
}

} // verus!
