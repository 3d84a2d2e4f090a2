use toy_arms::error::ToyArmsExternalError;
use toy_arms::external::Module;
use toy_arms::pattern::{compile_pattern, PatternToken};
use toy_arms::scanner::search;

fn find(buffer: &[u8], pattern: &str) -> Option<usize> {
    let tokens = compile_pattern(pattern).unwrap();
    search(buffer, &tokens)
}

fn naive_first_match(buffer: &[u8], pattern: &[PatternToken]) -> Option<usize> {
    if pattern.len() > buffer.len() {
        return None;
    }
    (0..=buffer.len() - pattern.len()).find(|&k| {
        pattern.iter().enumerate().all(|(i, t)| match t {
            PatternToken::ExactByte(b) => buffer[k + i] == *b,
            PatternToken::Wildcard => true,
        })
    })
}

fn module(base: usize, size: u32) -> Module {
    Module::from_module_entry(7, base, size, base, "client.dll", b"C:\\game\\client.dll\0\0\0").unwrap()
}

#[test]
fn scenario_match_at_start() {
    assert_eq!(find(&[0xAA, 0xBB, 0x00, 0xDD, 0xFF], "AA BB ? DD"), Some(0));
}

#[test]
fn scenario_match_after_first_byte() {
    assert_eq!(find(&[0xFF, 0xAA, 0xBB, 0x11, 0xDD], "AA BB ? DD"), Some(1));
}

#[test]
fn scenario_pattern_longer_than_buffer() {
    assert_eq!(find(&[0xAA], "AA AA"), None);
}

#[test]
fn malformed_hex_rejected_before_scanning() {
    assert_eq!(compile_pattern("AA ZZ"), Err(ToyArmsExternalError::MalformedPattern));
    let m = module(0x1000, 2);
    assert_eq!(m.find_pattern(&[0xAA, 0xBB], "AA ZZ"), Err(ToyArmsExternalError::MalformedPattern));
}

#[test]
fn malformed_token_shapes_rejected() {
    for bad in ["", "   ", "A", "AAA", "??", "G0", "AA,BB", "0x1", "AA ?? BB"] {
        assert_eq!(compile_pattern(bad), Err(ToyArmsExternalError::MalformedPattern), "{bad:?}");
    }
}

#[test]
fn compile_tolerates_whitespace_and_case() {
    let tokens = compile_pattern("  89 0d\t?  8B\n").unwrap();
    assert_eq!(
        tokens,
        vec![
            PatternToken::ExactByte(0x89),
            PatternToken::ExactByte(0x0D),
            PatternToken::Wildcard,
            PatternToken::ExactByte(0x8B),
        ]
    );
}

#[test]
fn compile_long_signature() {
    let tokens = compile_pattern("89 0D ? ? ? ? 8B 0D ? ? ? ? 8B F2 8B C1 83 CE 04").unwrap();
    assert_eq!(tokens.len(), 19);
    assert_eq!(tokens[0], PatternToken::ExactByte(0x89));
    assert_eq!(tokens[2], PatternToken::Wildcard);
    assert_eq!(tokens[18], PatternToken::ExactByte(0x04));
}

#[test]
fn exact_pattern_agrees_with_substring_search() {
    let buffer: Vec<u8> = (0..200u32).map(|i| ((i * 7 + i / 13) % 5) as u8).collect();
    for len in 1..6 {
        for start in 0..buffer.len() - len {
            let needle = &buffer[start..start + len];
            let tokens: Vec<PatternToken> = needle.iter().map(|b| PatternToken::ExactByte(*b)).collect();
            let expected = buffer.windows(len).position(|w| w == needle);
            assert_eq!(search(&buffer, &tokens), expected);
        }
    }
    let missing = [PatternToken::ExactByte(9), PatternToken::ExactByte(9)];
    assert_eq!(search(&buffer, &missing), None);
}

#[test]
fn all_wildcards_match_at_zero() {
    assert_eq!(find(&[5, 6, 7], "? ? ?"), Some(0));
    assert_eq!(find(&[5, 6, 7, 8], "?"), Some(0));
    assert_eq!(find(&[5, 6], "? ? ?"), None);
}

#[test]
fn found_offset_agrees_with_tokens() {
    let buffer = [1u8, 2, 3, 0x10, 0x20, 0x99, 0x40, 4];
    let tokens = compile_pattern("10 20 ? 40").unwrap();
    let k = search(&buffer, &tokens).unwrap();
    assert_eq!(k, 3);
    for (i, t) in tokens.iter().enumerate() {
        if let PatternToken::ExactByte(b) = t {
            assert_eq!(buffer[k + i], *b);
        }
    }
}

#[test]
fn longer_pattern_never_found() {
    assert_eq!(find(&[], "AA"), None);
    assert_eq!(find(&[1, 2, 3], "? ? ? ?"), None);
}

#[test]
fn repeated_search_is_stable() {
    let buffer = [0xAAu8, 0xCC, 0xAA, 0xBB, 0xAA, 0xBB];
    let tokens = compile_pattern("AA BB").unwrap();
    let first = search(&buffer, &tokens);
    assert_eq!(first, Some(2));
    assert_eq!(search(&buffer, &tokens), first);
}

#[test]
fn pattern_as_long_as_buffer() {
    assert_eq!(find(&[1, 2, 3], "01 ? 03"), Some(0));
    assert_eq!(find(&[1, 2, 3], "01 ? 04"), None);
}

#[test]
fn wildcard_before_last_position_limits_the_skip() {
    assert_eq!(find(&[0x00, 0xAA, 0xCC, 0xBB], "AA ? BB"), Some(1));
    assert_eq!(find(&[0x00, 0x00, 0xAA, 0xCC, 0xBB], "AA ? BB"), Some(2));
}

#[test]
fn lowest_of_several_matches() {
    let buffer = [9u8, 1, 2, 9, 1, 2, 9];
    assert_eq!(find(&buffer, "01 02"), Some(1));
    assert_eq!(find(&buffer, "? 02 09"), Some(1));
}

#[test]
fn matches_naive_search_with_wildcards() {
    let buffer: Vec<u8> = (0..64u32).map(|i| ((i * 5 + 3) % 4) as u8).collect();
    let patterns = ["00 ? 02", "? 03", "01 ? ? 00", "03 02 ?", "02 ? 00 ? 02", "? ? 01"];
    for p in patterns {
        let tokens = compile_pattern(p).unwrap();
        assert_eq!(search(&buffer, &tokens), naive_first_match(&buffer, &tokens), "{p}");
    }
}

#[test]
fn empty_token_list_matches_at_zero() {
    assert_eq!(search(&[1, 2], &[]), Some(0));
}

#[test]
fn find_pattern_gives_absolute_address() {
    let m = module(0x40_0000, 5);
    let memory = [0xFF, 0xAA, 0xBB, 0x11, 0xDD];
    assert_eq!(m.find_pattern(&memory, "AA BB ? DD"), Ok(Some(0x40_0001)));
    assert_eq!(m.find_pattern(&memory, "AA CC"), Ok(None));
}

#[test]
fn pattern_scan_points_past_the_match() {
    let m = module(0x40_0000, 6);
    let memory = [0x90, 0x89, 0x0D, 0x78, 0x56, 0x34];
    assert_eq!(m.pattern_scan(&memory, "89 0D ? ? ?", 2), Ok(Some(0x40_0003)));
    assert_eq!(m.pattern_scan(&memory, "8B 0D", 2), Ok(None));
    assert_eq!(m.pattern_scan(&memory, "8B 0", 2), Err(ToyArmsExternalError::MalformedPattern));
}

#[test]
fn static_offset_relative_to_base() {
    let m = module(0x40_0000, 6);
    assert_eq!(m.static_offset(0x40_1234, 0), 0x1234);
    assert_eq!(m.static_offset(0x40_1234, 0x10), 0x1244);
    assert_eq!(m.static_offset(0x3F_FFFF, 1), 0);
    assert_eq!(m.static_offset(0x3F_FFFF, 0), usize::MAX);
}

#[test]
fn find_pattern_in_explicit_range() {
    let m = module(0x40_0000, 6);
    let memory = [0x00, 0x00, 0x12, 0x34];
    assert_eq!(m.find_pattern_specific_range(&memory, "12 34", 0x50_0000, 0x50_0004), Ok(Some(0x50_0002)));
    assert_eq!(m.find_pattern_specific_range(&memory, "34 12", 0x50_0000, 0x50_0004), Ok(None));
}
