use garden_esp::linker::{hint_text, linker_reply, LinkerReply, MissingPiece};

#[test]
fn undefined_symbols_point_to_missing_setup() {
    assert_eq!(linker_reply("undefined-symbol", "_defmt_timestamp"), LinkerReply::Hint(MissingPiece::Defmt));
    assert_eq!(linker_reply("undefined-symbol", "_stack_start"), LinkerReply::Hint(MissingPiece::LinkallScript));
    assert_eq!(linker_reply("undefined-symbol", "esp_rtos_yield"), LinkerReply::Hint(MissingPiece::Scheduler));
    assert_eq!(
        linker_reply("undefined-symbol", "embedded_test_linker_file_not_added_to_rustflags"),
        LinkerReply::Hint(MissingPiece::EmbeddedTest)
    );
    for sym in ["free", "malloc", "calloc", "get_free_internal_heap_size", "malloc_internal",
        "realloc_internal", "calloc_internal", "free_internal"] {
        assert_eq!(linker_reply("undefined-symbol", sym), LinkerReply::Hint(MissingPiece::Allocator));
    }
}

#[test]
fn other_symbols_and_kinds() {
    assert_eq!(linker_reply("undefined-symbol", "_stack_start_x"), LinkerReply::NoHint);
    assert_eq!(linker_reply("undefined-symbol", "realloc"), LinkerReply::NoHint);
    assert_eq!(linker_reply("undefined-symbol", "_defmt"), LinkerReply::NoHint);
    assert_eq!(linker_reply("missing-lib", "c"), LinkerReply::UnknownKind);
}

#[test]
fn hints_mention_the_missing_piece() {
    assert!(hint_text(MissingPiece::Defmt).contains("defmt.x"));
    assert!(hint_text(MissingPiece::LinkallScript).contains("linkall.x"));
    assert!(hint_text(MissingPiece::Scheduler).contains("esp-rtos"));
    assert!(hint_text(MissingPiece::EmbeddedTest).contains("embedded-test.x"));
    assert!(hint_text(MissingPiece::Allocator).contains("compat"));
}
