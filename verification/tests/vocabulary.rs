use dictum_core::inference::vocabulary::{
    always_suppress_tokens, begin_suppress_tokens, decode_prefix_candidates,
    decode_prefix_candidates_from, decode_text, parse_language_hint, parse_phrase_bias_terms,
    phrase_bias_token_ids,
    special_tokens, DecodeLanguageHint, SpecialTokens,
};
use std::str::FromStr;
use tokenizers::Tokenizer;

fn tokenizer(vocab: &[(&str, u32)]) -> Tokenizer {
    let entries: Vec<String> =
        vocab.iter().map(|(token, id)| format!("{}:{}", serde_json::to_string(token).unwrap(), id)).collect();
    let json = format!(
        "{{\"version\":\"1.0\",\"truncation\":null,\"padding\":null,\"added_tokens\":[],\
         \"normalizer\":null,\"pre_tokenizer\":null,\"post_processor\":null,\"decoder\":null,\
         \"model\":{{\"type\":\"WordLevel\",\"vocab\":{{{}}},\"unk_token\":\"[UNK]\"}}}}",
        entries.join(",")
    );
    Tokenizer::from_str(&json).expect("tokenizer")
}

fn whisper_like() -> Tokenizer {
    tokenizer(&[
        ("[UNK]", 0),
        ("hello", 1),
        ("world", 2),
        (" hello", 3),
        ("HELLO", 4),
        ("<|startoftranscript|>", 10),
        ("<|en|>", 11),
        ("<|transcribe|>", 12),
        ("<|notimestamps|>", 13),
        ("<|endoftext|>", 14),
        ("<|zh|>", 15),
        ("<|0.00|>", 20),
    ])
}

#[test]
fn special_tokens_come_from_the_vocabulary() {
    let s = special_tokens(&whisper_like());
    assert_eq!(s.sot, 10);
    assert_eq!(s.en, 11);
    assert_eq!(s.transcribe, 12);
    assert_eq!(s.notimestamps, 13);
    assert_eq!(s.eot, 14);
    assert_eq!(s.zh, Some(15));
    assert_eq!(s.ru, None);
    assert_eq!(s.timestamp_begin, Some(20));
    assert_eq!(s.translate, None);
    assert_eq!(s.nospeech, None);
    assert_eq!(s.named_sot, Some(10));
}

#[test]
fn missing_special_tokens_fall_back_on_fixed_ids() {
    let s = special_tokens(&tokenizer(&[("[UNK]", 0), ("hello", 1)]));
    assert_eq!(s.sot, 50_258);
    assert_eq!(s.en, 50_259);
    assert_eq!(s.transcribe, 50_359);
    assert_eq!(s.notimestamps, 50_363);
    assert_eq!(s.eot, 50_257);
    assert_eq!(s.zh, None);
    assert_eq!(s.timestamp_begin, None);
    assert_eq!(s.named_sot, None);
    assert!(always_suppress_tokens(&s).is_empty());
    assert_eq!(begin_suppress_tokens(&s), vec![220, 50_257]);
}

#[test]
fn prefixes_are_tried_in_order() {
    let t = whisper_like();
    assert_eq!(
        decode_prefix_candidates(&t, DecodeLanguageHint::Auto),
        vec![vec![10, 12, 13], vec![10, 12], vec![10, 15, 12, 13], vec![10, 11, 12, 13], vec![10, 11, 12]]
    );
    assert_eq!(
        decode_prefix_candidates(&t, DecodeLanguageHint::English),
        vec![vec![10, 11, 12, 13], vec![10, 11, 12], vec![10, 12, 13], vec![10, 12], vec![10, 15, 12, 13]]
    );
    assert_eq!(
        decode_prefix_candidates(&t, DecodeLanguageHint::Mandarin),
        vec![
            vec![10, 15, 12, 13],
            vec![10, 15, 12],
            vec![10, 12, 13],
            vec![10, 12],
            vec![10, 11, 12, 13],
            vec![10, 11, 12]
        ]
    );
    // The vocabulary has no Russian token: the hint changes nothing.
    assert_eq!(
        decode_prefix_candidates(&t, DecodeLanguageHint::Russian),
        decode_prefix_candidates(&t, DecodeLanguageHint::Auto)
    );
}

#[test]
fn equal_prefixes_are_tried_once() {
    let s = SpecialTokens {
        sot: 1,
        en: 2,
        transcribe: 2,
        notimestamps: 2,
        zh: Some(2),
        ru: Some(2),
        eot: 9,
        timestamp_begin: None,
        translate: None,
        nospeech: None,
        named_sot: None,
        named_transcribe: None,
        named_notimestamps: None,
    };
    assert_eq!(
        decode_prefix_candidates_from(&s, DecodeLanguageHint::Russian),
        vec![vec![1, 2, 2, 2], vec![1, 2, 2], vec![1, 2]]
    );
}

#[test]
fn suppressed_tokens_are_listed_once() {
    let t = tokenizer(&[
        ("[UNK]", 0),
        ("<|startoftranscript|>", 10),
        ("<|translate|>", 11),
        ("<|transcribe|>", 12),
        ("<|notimestamps|>", 13),
        ("<|nospeech|>", 14),
        ("<|endoftext|>", 220),
    ]);
    let s = special_tokens(&t);
    let mut always = always_suppress_tokens(&s);
    always.sort_unstable();
    assert_eq!(always, vec![10, 11, 12, 13, 14]);
    assert_eq!(begin_suppress_tokens(&s), vec![220]);
}

#[test]
fn phrase_bias_looks_every_form_up() {
    let t = whisper_like();
    let mut ids = phrase_bias_token_ids(&t, &vec!["hello".to_string(), "nothing".to_string()]);
    ids.sort_unstable();
    assert_eq!(ids, vec![1, 3, 4]);
    assert!(phrase_bias_token_ids(&t, &vec![]).is_empty());
    assert_eq!(phrase_bias_token_ids(&t, &vec!["HELLO".to_string(), "hello".to_string()]), vec![4, 1, 3]);
}

#[test]
fn tokens_decode_to_text() {
    let t = whisper_like();
    assert_eq!(decode_text(&t, &vec![1, 2]), Ok(Some("hello world".to_string())));
    assert_eq!(decode_text(&t, &vec![]), Ok(None));
}

#[test]
fn language_hints_are_parsed() {
    assert_eq!(parse_language_hint(" EN "), DecodeLanguageHint::English);
    assert_eq!(parse_language_hint("english"), DecodeLanguageHint::English);
    assert_eq!(parse_language_hint("zh-CN"), DecodeLanguageHint::Mandarin);
    assert_eq!(parse_language_hint("Chinese"), DecodeLanguageHint::Mandarin);
    assert_eq!(parse_language_hint("rus"), DecodeLanguageHint::Russian);
    assert_eq!(parse_language_hint(""), DecodeLanguageHint::Auto);
    assert_eq!(parse_language_hint("de"), DecodeLanguageHint::Auto);
}

#[test]
fn phrase_bias_terms_are_read_from_a_list() {
    assert_eq!(parse_phrase_bias_terms("Rust, Verus\n  Z3 ,,\r\nlast"), vec!["rust", "verus", "z3", "last"]);
    assert_eq!(parse_phrase_bias_terms(""), Vec::<String>::new());
    assert_eq!(parse_phrase_bias_terms(" , \n ,"), Vec::<String>::new());
    assert_eq!(parse_phrase_bias_terms("one term"), vec!["one term"]);
    assert_eq!(parse_phrase_bias_terms("a,b"), vec!["a", "b"]);
}
