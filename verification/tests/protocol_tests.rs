use ai_bridge::protocol::{Symbol, SymbolClassification};

#[test]
fn symbol_extraction_stays_strict_and_uses_critical_default() {
    let (symbol, remaining) = Symbol::extract_from_command("[[AB:OPS.APP.OPEN]] cargo test");
    assert_eq!(symbol, Symbol::OpsAppOpen);
    assert_eq!(remaining, "cargo test");

    let (symbol, remaining) = Symbol::extract_from_command("cargo test");
    assert_eq!(symbol, Symbol::CritUnclassified);
    assert_eq!(remaining, "cargo test");

    let (symbol, remaining) = Symbol::extract_from_command("[[AB:UNKNOWN]] cargo test");
    assert_eq!(symbol, Symbol::CritUnclassified);
    assert_eq!(remaining, "[[AB:UNKNOWN]] cargo test");
}

#[test]
fn symbol_table_classifies_each_entry_correctly() {
    let expectations = [
        (Symbol::OpsAppOpen, SymbolClassification::Delegable),
        (Symbol::OpsAppBrowse, SymbolClassification::Delegable),
        (Symbol::OpsFileCreate, SymbolClassification::Delegable),
        (Symbol::OpsFileEdit, SymbolClassification::Delegable),
        (Symbol::OpsFileDeleteRecoverable, SymbolClassification::Delegable),
        (Symbol::OpsTermRunLocal, SymbolClassification::Delegable),
        (Symbol::OpsInputHid, SymbolClassification::Delegable),
        (Symbol::CritIrreversible, SymbolClassification::Critical),
        (Symbol::CritSysSecurity, SymbolClassification::Critical),
        (Symbol::CritSecret, SymbolClassification::Critical),
        (Symbol::CritEgress, SymbolClassification::Critical),
        (Symbol::CritFinancial, SymbolClassification::Critical),
        (Symbol::CritThirdParty, SymbolClassification::Critical),
        (Symbol::CritUnclassified, SymbolClassification::Critical),
    ];

    for (symbol, classification) in expectations {
        assert_eq!(symbol.classification(), classification);
        assert!(!symbol.literal_name().is_empty());
        assert!(!symbol.description().is_empty());
    }
}

#[test]
fn tagging_then_extracting_gives_back_symbol_and_trimmed_command() {
    for symbol in Symbol::all() {
        let tagged = symbol.with_tag("  cargo build  ");
        let (found, rest) = Symbol::extract_from_command(&tagged);
        if symbol == Symbol::CritUnclassified {
            assert_eq!(found, Symbol::CritUnclassified);
        } else {
            assert_eq!(found, symbol);
            assert_eq!(rest, "cargo build");
        }
    }
}

#[test]
fn with_tag_formats_the_tag_before_the_trimmed_command() {
    assert_eq!(Symbol::OpsTermRunLocal.with_tag(" ls -la "), "[[AB:OPS.TERM.RUN.LOCAL]] ls -la");
    assert_eq!(Symbol::CritSecret.with_tag("   "), "[[AB:CRIT.SECRET]]");
}

#[test]
fn literal_names_resolve_back_to_their_symbols() {
    assert_eq!(Symbol::from_literal("OPS.APP.OPEN"), Some(Symbol::OpsAppOpen));
    assert_eq!(Symbol::from_literal("CRIT.SECRET"), Some(Symbol::CritSecret));
    assert_eq!(Symbol::from_literal("NOPE"), None);
    assert_eq!(Symbol::all().len(), 14);
}

#[test]
fn tagged_command_reads_back_its_symbol() {
    for sym in Symbol::all() {
        let tagged = sym.with_tag("  cargo test  ");
        assert_eq!(Symbol::extract_from_command(&tagged), (sym, "cargo test".to_string()));
        let bare = sym.with_tag("   ");
        assert_eq!(Symbol::extract_from_command(&bare), (sym, String::new()));
    }
}
