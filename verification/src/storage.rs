//! The local history of the host: how its text is sealed, and how its
//! records are counted, searched and paged.

use vstd::prelude::*;
use vstd::string::*;
use vstd::utf8::{decode_utf8, encode_utf8, valid_utf8};
use aes_gcm::aead::{Aead, KeyInit};
use aes_gcm::{Aes256Gcm, Nonce};
use base64::engine::general_purpose::STANDARD;
use base64::Engine;
use chrono::{TimeZone, Utc};
use rand::rngs::OsRng;
use rand::RngCore;
use crate::engine::pipeline::DiagnosticsSnapshot;
use crate::text::{
    chars_of, contains, count_words, decimal, has_infix, lower, lowered, opt_str_text, opt_text,
    push_decimal, push_str, str_eq, string_of, trim, trimmed, words_of,
};
use crate::update::{hex_digit, sha256, sha256_digest};

verus! {

// ---------------------------------------------------------------------------
// What the outside crates compute
// ---------------------------------------------------------------------------

/// What AES-256-GCM makes of a text under a key and a nonce: the sealed
/// bytes, or the text of the error.
pub uninterp spec fn aes256_gcm_sealed(key: Seq<u8>, nonce: Seq<u8>, plain: Seq<u8>) -> Result<
    Seq<u8>,
    Seq<char>,
>;

/// What AES-256-GCM makes of sealed bytes under a key and a nonce: the
/// text, where the bytes are what was sealed under them.
pub uninterp spec fn aes256_gcm_opened(key: Seq<u8>, nonce: Seq<u8>, sealed: Seq<u8>) -> Option<
    Seq<u8>,
>;

/// The bytes in base64, standard alphabet, padded.
pub uninterp spec fn base64_text(bytes: Seq<u8>) -> Seq<char>;

/// The bytes that a text stands for in base64, where it stands for any.
pub uninterp spec fn base64_bytes(text: Seq<char>) -> Option<Seq<u8>>;

/// The time of a timestamp, in seconds since 1970, as RFC 3339 writes it
/// in universal time; none for a timestamp out of range.
pub uninterp spec fn rfc3339_utc(timestamp: i64) -> Option<Seq<char>>;

/// The length of a nonce.
pub const NONCE_LEN: usize = 12;

/// `Aes256Gcm::new_from_slice` and `Aead::encrypt` of the `aes-gcm` crate:
/// the text sealed under the key and the nonce, with the error of either
/// call as text. The contract names the result. A nonce of another length
/// than 12 would make the call panic and is left out.
#[verifier::external_body]
fn seal(key: &Vec<u8>, nonce: &Vec<u8>, plain: &[u8]) -> (r: Result<Vec<u8>, String>)
    requires
        nonce@.len() == NONCE_LEN,
    ensures
        match r {
            Ok(bytes) => Ok::<Seq<u8>, Seq<char>>(bytes@),
            Err(e) => Err(e@),
        } == aes256_gcm_sealed(key@, nonce@, plain@),
{
    let cipher = Aes256Gcm::new_from_slice(key.as_slice()).map_err(|e| e.to_string())?;
    cipher.encrypt(Nonce::from_slice(nonce.as_slice()), plain).map_err(|e| e.to_string())
}

/// `Aes256Gcm::new_from_slice` and `Aead::decrypt` of the `aes-gcm` crate:
/// the text that was sealed, or nothing where a call fails. The contract
/// names the result. A nonce of another length than 12 is left out.
#[verifier::external_body]
fn open(key: &Vec<u8>, nonce: &Vec<u8>, sealed: &Vec<u8>) -> (r: Option<Vec<u8>>)
    requires
        nonce@.len() == NONCE_LEN,
    ensures
        match r {
            Some(bytes) => Some(bytes@),
            None => None,
        } == aes256_gcm_opened(key@, nonce@, sealed@),
{
    let cipher = Aes256Gcm::new_from_slice(key.as_slice()).ok()?;
    cipher.decrypt(Nonce::from_slice(nonce.as_slice()), sealed.as_slice()).ok()
}

/// `Engine::encode` of the `base64` crate with the standard engine. The
/// contract names the result. Input so long that the size of the output
/// overflows would make the call panic and is left out.
#[verifier::external_body]
fn base64_encode(bytes: &Vec<u8>) -> (text: String)
    requires
        bytes@.len() <= usize::MAX / 2,
    ensures
        text@ == base64_text(bytes@),
{
    STANDARD.encode(bytes.as_slice())
}

/// `Engine::decode` of the `base64` crate with the standard engine:
/// nothing for a text that is no base64. The contract names the result.
#[verifier::external_body]
fn base64_decode(text: &str) -> (bytes: Option<Vec<u8>>)
    ensures
        match bytes {
            Some(b) => Some(b@),
            None => None,
        } == base64_bytes(text@),
{
    STANDARD.decode(text).ok()
}

/// `OsRng::try_fill_bytes` of the `rand` crate on twelve bytes: random
/// bytes from the operating system, or the text of its error. Of the bytes
/// only their number is known.
#[verifier::external_body]
fn random_nonce() -> (r: Result<Vec<u8>, String>)
    ensures
        r matches Ok(nonce) ==> nonce@.len() == NONCE_LEN,
{
    let mut nonce = [0u8; 12];
    OsRng.try_fill_bytes(&mut nonce).map_err(|e| e.to_string())?;
    Ok(nonce.to_vec())
}

/// `String::from_utf8` of the standard library: the text that the bytes
/// encode, where they are UTF-8.
#[verifier::external_body]
fn utf8_string(bytes: Vec<u8>) -> (r: Option<String>)
    ensures
        r is Some <==> valid_utf8(bytes@),
        r matches Some(s) ==> s@ == decode_utf8(bytes@),
{
    String::from_utf8(bytes).ok()
}

/// `TimeZone::timestamp_opt` on `Utc` and `DateTime::to_rfc3339` of the
/// `chrono` crate: the time as RFC 3339 writes it, or nothing for a
/// timestamp out of range. The contract names the result.
#[verifier::external_body]
fn rfc3339(timestamp: i64) -> (r: Option<String>)
    ensures
        opt_text(r) == rfc3339_utc(timestamp),
{
    Utc.timestamp_opt(timestamp, 0).single().map(|dt| dt.to_rfc3339())
}

// ---------------------------------------------------------------------------
// Sealing text
// ---------------------------------------------------------------------------

/// What the key of a store is derived from: the user, the machine and
/// the place of the store.
pub open spec fn key_material(username: Seq<char>, computer: Seq<char>, scope: Seq<char>) -> Seq<
    char,
> {
    username + "|"@ + computer + "|"@ + scope + "|dictum-history-v1"@
}

/// The sealed form of a text under a nonce: the nonce and, behind it, the
/// sealed bytes, in base64. Empty text stays empty.
pub open spec fn sealed_text(key: Seq<u8>, nonce: Seq<u8>, plain: Seq<char>) -> Result<
    Seq<char>,
    Seq<char>,
> {
    if plain.len() == 0 {
        Ok(Seq::empty())
    } else {
        match aes256_gcm_sealed(key, nonce, encode_utf8(plain)) {
            Ok(sealed) => if nonce.len() + sealed.len() <= usize::MAX / 2 {
                Ok(base64_text(nonce + sealed))
            } else {
                Err("sealed text too long"@)
            },
            Err(e) => Err(e),
        }
    }
}

/// The text that a sealed form holds: what opens, under the nonce that
/// the form begins with, and is UTF-8. Empty stays empty; a form that is no
/// base64, holds no more than a nonce, does not open or is no text holds nothing.
pub open spec fn opened_text(key: Seq<u8>, encoded: Seq<char>) -> Option<Seq<char>> {
    if encoded.len() == 0 {
        Some(Seq::empty())
    } else {
        match base64_bytes(encoded) {
            Some(bytes) => if bytes.len() <= NONCE_LEN {
                None
            } else {
                match aes256_gcm_opened(
                    key,
                    bytes.subrange(0, NONCE_LEN as int),
                    bytes.subrange(NONCE_LEN as int, bytes.len() as int),
                ) {
                    Some(plain) => if valid_utf8(plain) {
                        Some(decode_utf8(plain))
                    } else {
                        None
                    },
                    None => None,
                }
            },
            None => None,
        }
    }
}

/// Seals and opens the text of the history under a key of the store.
#[derive(Debug, Clone)]
pub struct TextCipher {
    key: Vec<u8>,
}

impl TextCipher {
    /// The key.
    pub closed spec fn key(self) -> Seq<u8> {
        self.key@
    }

    /// The cipher of the store at `scope` for a user on a machine: its key
    /// is the SHA-256 digest of the key material.
    pub fn new(username: &str, computer: &str, scope: &str) -> (cipher: TextCipher)
        ensures
            cipher.key() == sha256(encode_utf8(key_material(username@, computer@, scope@))),
    {
        let mut material: Vec<char> = Vec::new();
        push_str(&mut material, username);
        push_str(&mut material, "|");
        push_str(&mut material, computer);
        push_str(&mut material, "|");
        push_str(&mut material, scope);
        push_str(&mut material, "|dictum-history-v1");
        let text = string_of(&material);
        TextCipher { key: sha256_digest(text.as_str().as_bytes()) }
    }

    /// Seals a text under the given nonce.
    pub fn encrypt_with_nonce(&self, nonce: &Vec<u8>, plain: &str) -> (r: Result<String, String>)
        requires
            nonce@.len() == NONCE_LEN,
        ensures
            match r {
                Ok(t) => Ok::<Seq<char>, Seq<char>>(t@),
                Err(e) => Err(e@),
            } == sealed_text(self.key(), nonce@, plain@),
    {
        if chars_of(plain).len() == 0 {
            return Ok(String::new());
        }
        let sealed = match seal(&self.key, nonce, plain.as_bytes()) {
            Ok(s) => s,
            Err(e) => {
                return Err(e);
            },
        };
        if sealed.len() > usize::MAX / 2 - NONCE_LEN {
            return Err(String::from_str("sealed text too long"));
        }
        let mut out: Vec<u8> = Vec::new();
        let mut i: usize = 0;
        while i < nonce.len()
            invariant
                i <= nonce.len(),
                out@ == nonce@.take(i as int),
            decreases nonce.len() - i,
        {
            out.push(nonce[i]);
            i += 1;
        }
        let mut k: usize = 0;
        while k < sealed.len()
            invariant
                k <= sealed.len(),
                out@ == nonce@ + sealed@.take(k as int),
                nonce@.len() == NONCE_LEN,
                sealed@.len() <= usize::MAX / 2 - NONCE_LEN,
            decreases sealed.len() - k,
        {
            out.push(sealed[k]);
            assert(sealed@.take(k + 1) =~= sealed@.take(k as int).push(sealed@[k as int]));
            k += 1;
        }
        assert(sealed@.take(sealed.len() as int) == sealed@);
        Ok(base64_encode(&out))
    }

    /// Seals a text under a fresh random nonce. Empty text stays empty;
    /// any other result is the sealed form under some nonce of twelve bytes.
    pub fn encrypt(&self, plain: &str) -> (r: Result<String, String>)
        ensures
            plain@.len() == 0 ==> (r matches Ok(t) && t@.len() == 0),
            r matches Ok(t) ==> exists|nonce: Seq<u8>|
                nonce.len() == NONCE_LEN && #[trigger] sealed_text(self.key(), nonce, plain@) == Ok::<
                    Seq<char>,
                    Seq<char>,
                >(t@),
    {
        if chars_of(plain).len() == 0 {
            let ghost any = Seq::new(NONCE_LEN as nat, |i: int| 0u8);
            assert(sealed_text(self.key(), any, plain@) == Ok::<Seq<char>, Seq<char>>(
                Seq::empty(),
            ));
            return Ok(String::new());
        }
        let nonce = match random_nonce() {
            Ok(n) => n,
            Err(e) => {
                return Err(e);
            },
        };
        let r = self.encrypt_with_nonce(&nonce, plain);
        proof {
            if r is Ok {
                assert(sealed_text(self.key(), nonce@, plain@) == Ok::<Seq<char>, Seq<char>>(
                    r->Ok_0@,
                ));
            }
        }
        r
    }

    /// Opens a sealed text.
    pub fn decrypt(&self, encoded: &str) -> (r: Option<String>)
        ensures
            opt_text(r) == opened_text(self.key(), encoded@),
    {
        if chars_of(encoded).len() == 0 {
            return Some(String::new());
        }
        let bytes = match base64_decode(encoded) {
            Some(b) => b,
            None => {
                return None;
            },
        };
        if bytes.len() <= NONCE_LEN {
            return None;
        }
        let mut nonce: Vec<u8> = Vec::new();
        let mut i: usize = 0;
        while i < NONCE_LEN
            invariant
                i <= NONCE_LEN,
                bytes@.len() > NONCE_LEN,
                nonce@ == bytes@.subrange(0, i as int),
            decreases NONCE_LEN - i,
        {
            nonce.push(bytes[i]);
            i += 1;
        }
        let mut sealed: Vec<u8> = Vec::new();
        let mut k: usize = NONCE_LEN;
        while k < bytes.len()
            invariant
                NONCE_LEN <= k <= bytes.len(),
                sealed@ == bytes@.subrange(NONCE_LEN as int, k as int),
            decreases bytes.len() - k,
        {
            sealed.push(bytes[k]);
            k += 1;
        }
        match open(&self.key, &nonce, &sealed) {
            Some(plain) => utf8_string(plain),
            None => None,
        }
    }
}

// ---------------------------------------------------------------------------
// Records
// ---------------------------------------------------------------------------

/// A record of the history as the host shows it.
#[derive(Debug, Clone)]
pub struct HistoryItem {
    pub id: String,
    pub created_at: String,
    pub text: String,
    pub source: String,
    pub latency_ms: i64,
    pub word_count: usize,
    pub char_count: usize,
    pub dictionary_applied: bool,
    pub snippet_applied: bool,
}

/// A page of the history.
#[derive(Debug, Clone)]
pub struct HistoryPage {
    pub items: Vec<HistoryItem>,
    pub total: usize,
    pub page: usize,
    pub page_size: usize,
}

/// What is recorded of a dictation.
#[derive(Debug, Clone)]
pub struct HistoryRecordInput {
    pub text: String,
    pub source: String,
    pub latency_ms: i64,
    pub dictionary_applied: bool,
    pub snippet_applied: bool,
}

/// What the host keeps of the user's activity.
#[derive(Debug, Clone, Copy, PartialEq, Eq, Structural)]
pub struct PrivacySettings {
    pub history_enabled: bool,
    pub retention_days: usize,
    pub cloud_opt_in: bool,
}

/// The counters of the host together with those of the pipeline.
#[derive(Debug, Clone, Copy, PartialEq, Eq, Structural)]
pub struct AppDiagnostics {
    pub inject_calls: usize,
    pub inject_success: usize,
    pub final_segments_seen: usize,
    pub fallback_stub_typed: usize,
    pub shortcut_toggle_executed: usize,
    pub shortcut_toggle_dropped: usize,
    pub pipeline_frames_in: usize,
    pub pipeline_frames_resampled: usize,
    pub pipeline_vad_windows: usize,
    pub pipeline_vad_speech: usize,
    pub pipeline_inference_calls: usize,
    pub pipeline_inference_errors: usize,
    pub pipeline_segments_emitted: usize,
    pub pipeline_fallback_emitted: usize,
}

impl AppDiagnostics {
    /// The counters of the host with the counters of the pipeline beside them.
    pub fn with_pipeline(host: AppDiagnostics, pipeline: DiagnosticsSnapshot) -> (d: AppDiagnostics)
        ensures
            d == (AppDiagnostics {
                pipeline_frames_in: pipeline.frames_in,
                pipeline_frames_resampled: pipeline.frames_resampled,
                pipeline_vad_windows: pipeline.vad_windows,
                pipeline_vad_speech: pipeline.vad_speech,
                pipeline_inference_calls: pipeline.inference_calls,
                pipeline_inference_errors: pipeline.inference_errors,
                pipeline_segments_emitted: pipeline.segments_emitted,
                pipeline_fallback_emitted: pipeline.fallback_emitted,
                ..host
            }),
    {
        AppDiagnostics {
            inject_calls: host.inject_calls,
            inject_success: host.inject_success,
            final_segments_seen: host.final_segments_seen,
            fallback_stub_typed: host.fallback_stub_typed,
            shortcut_toggle_executed: host.shortcut_toggle_executed,
            shortcut_toggle_dropped: host.shortcut_toggle_dropped,
            pipeline_frames_in: pipeline.frames_in,
            pipeline_frames_resampled: pipeline.frames_resampled,
            pipeline_vad_windows: pipeline.vad_windows,
            pipeline_vad_speech: pipeline.vad_speech,
            pipeline_inference_calls: pipeline.inference_calls,
            pipeline_inference_errors: pipeline.inference_errors,
            pipeline_segments_emitted: pipeline.segments_emitted,
            pipeline_fallback_emitted: pipeline.fallback_emitted,
        }
    }
}

/// The words and the characters of a text, as a record counts them.
pub fn history_counts(text: &str) -> (counts: (usize, usize))
    ensures
        counts.0 == words_of(text@).len(),
        counts.1 == text@.len(),
{
    let chars = chars_of(text);
    (count_words(&chars), chars.len())
}

/// Whether a record is found by a search: its text holds the words of the
/// search, trimmed, up to the case of letters. A blank search finds everything.
pub open spec fn found_by(text: Seq<char>, query: Option<Seq<char>>) -> bool {
    match query {
        Some(q) => lowered(trimmed(q)).len() == 0 || has_infix(lowered(text), lowered(trimmed(q))),
        None => true,
    }
}

/// Whether a record is found by a search.
pub fn matches_query(text: &str, query: Option<&str>) -> (b: bool)
    ensures
        b == found_by(text@, opt_str_text(query)),
{
    match query {
        Some(q) => {
            let needle = lower(&trim(&chars_of(q)));
            needle.len() == 0 || contains(&lower(&chars_of(text)), &needle)
        },
        None => true,
    }
}

/// The most records of a page.
pub const MAX_PAGE_SIZE: usize = 200;

/// The number of a page as it is used: 1 at least.
pub open spec fn page_number(page: usize) -> usize {
    if page < 1 {
        1
    } else {
        page
    }
}

/// The size of a page as it is used: between 1 and 200.
pub open spec fn page_size_of(page_size: usize) -> usize {
    if page_size < 1 {
        1
    } else if page_size > MAX_PAGE_SIZE {
        MAX_PAGE_SIZE
    } else {
        page_size
    }
}

/// The index of the first record of a page, the largest index where the
/// product does not fit.
pub open spec fn page_start(page: usize, page_size: usize) -> int {
    let start = (page_number(page) - 1) * page_size_of(page_size);
    if start > usize::MAX {
        usize::MAX as int
    } else {
        start
    }
}

/// The index behind the last record of a page among `total` records.
pub open spec fn page_end(page: usize, page_size: usize, total: int) -> int {
    let end = page_start(page, page_size) + page_size_of(page_size);
    if end > total {
        total
    } else {
        end
    }
}

fn copy_item(item: &HistoryItem) -> (c: HistoryItem)
    ensures
        c.id@ == item.id@,
        c.created_at@ == item.created_at@,
        c.text@ == item.text@,
        c.source@ == item.source@,
        c.latency_ms == item.latency_ms,
        c.word_count == item.word_count,
        c.char_count == item.char_count,
        c.dictionary_applied == item.dictionary_applied,
        c.snippet_applied == item.snippet_applied,
{
    HistoryItem {
        id: item.id.clone(),
        created_at: item.created_at.clone(),
        text: item.text.clone(),
        source: item.source.clone(),
        latency_ms: item.latency_ms,
        word_count: item.word_count,
        char_count: item.char_count,
        dictionary_applied: item.dictionary_applied,
        snippet_applied: item.snippet_applied,
    }
}

/// The records are the same in every field.
pub open spec fn same_item(a: HistoryItem, b: HistoryItem) -> bool {
    &&& a.id@ == b.id@
    &&& a.created_at@ == b.created_at@
    &&& a.text@ == b.text@
    &&& a.source@ == b.source@
    &&& a.latency_ms == b.latency_ms
    &&& a.word_count == b.word_count
    &&& a.char_count == b.char_count
    &&& a.dictionary_applied == b.dictionary_applied
    &&& a.snippet_applied == b.snippet_applied
}

/// The page of the given number among the records: the records from the
/// start of the page to its end, in order; none where the page begins
/// behind the last record.
pub fn history_page(items: &Vec<HistoryItem>, page: usize, page_size: usize) -> (p: HistoryPage)
    ensures
        p.total == items@.len(),
        p.page == page_number(page),
        p.page_size == page_size_of(page_size),
        page_start(page, page_size) >= items@.len() ==> p.items@.len() == 0,
        page_start(page, page_size) < items@.len() ==> {
            &&& p.items@.len() == page_end(page, page_size, items@.len() as int) - page_start(
                page,
                page_size,
            )
            &&& forall|k: int|
                0 <= k < p.items@.len() ==> same_item(
                    #[trigger] p.items@[k],
                    items@[page_start(page, page_size) + k],
                )
        },
{
    let page: usize = if page < 1 {
        1
    } else {
        page
    };
    let page_size: usize = if page_size < 1 {
        1
    } else if page_size > MAX_PAGE_SIZE {
        MAX_PAGE_SIZE
    } else {
        page_size
    };
    let total = items.len();
    let before: u128 = (page - 1) as u128;
    let size: u128 = page_size as u128;
    assert(before * size <= 0xffff_ffff_ffff_ffff * 200) by (nonlinear_arith)
        requires
            0 <= before <= 0xffff_ffff_ffff_ffff,
            0 <= size <= 200,
    ;
    let product: u128 = before * size;
    let start: usize = if product > usize::MAX as u128 {
        usize::MAX
    } else {
        product as usize
    };
    let mut paged: Vec<HistoryItem> = Vec::new();
    if start >= total {
        return HistoryPage { items: paged, total, page, page_size };
    }
    let end: usize = if page_size > total - start {
        total
    } else {
        start + page_size
    };
    let mut i: usize = start;
    while i < end
        invariant
            start <= i <= end <= items.len(),
            paged@.len() == i - start,
            forall|k: int| 0 <= k < paged@.len() ==> same_item(#[trigger] paged@[k], items@[start + k]),
        decreases end - i,
    {
        paged.push(copy_item(&items[i]));
        i += 1;
    }
    HistoryPage { items: paged, total, page, page_size }
}

/// The mode of a snippet as it is stored: `phrase`, or `slash` for anything else.
pub fn normalize_snippet_mode(mode: &str) -> (m: String)
    ensures
        m@ == if mode@ == "phrase"@ {
            "phrase"@
        } else {
            "slash"@
        },
{
    if str_eq(mode, "phrase") {
        String::from_str("phrase")
    } else {
        String::from_str("slash")
    }
}

/// The time of a timestamp as the host shows it; none for a timestamp out of range.
pub fn ts_to_rfc3339(timestamp: i64) -> (r: Option<String>)
    ensures
        opt_text(r) == rfc3339_utc(timestamp),
{
    rfc3339(timestamp)
}

/// The eight hexadecimal digits of a number of 32 bits.
pub open spec fn hex8(n: u32) -> Seq<char> {
    seq![
        hex_digit(n as int / 0x1000_0000 % 16),
        hex_digit(n as int / 0x100_0000 % 16),
        hex_digit(n as int / 0x10_0000 % 16),
        hex_digit(n as int / 0x1_0000 % 16),
        hex_digit(n as int / 0x1000 % 16),
        hex_digit(n as int / 0x100 % 16),
        hex_digit(n as int / 0x10 % 16),
        hex_digit(n as int % 16),
    ]
}

/// A whole number in decimal, with a minus sign before a negative one.
pub open spec fn signed_decimal(n: i64) -> Seq<char> {
    if n < 0 {
        seq!['-'] + decimal((-(n as int)) as nat)
    } else {
        decimal(n as nat)
    }
}

/// The id of a new record: a prefix, the time in microseconds and a random
/// number in hexadecimal.
pub open spec fn record_id(prefix: Seq<char>, micros: i64, random: u32) -> Seq<char> {
    prefix + seq!['-'] + signed_decimal(micros) + seq!['-'] + hex8(random)
}

fn hex_char(n: u32) -> (c: char)
    requires
        n < 16,
    ensures
        c == hex_digit(n as int),
{
    let b: u8 = n as u8;
    if b < 10 {
        (48 + b) as char
    } else {
        (87 + b) as char
    }
}

/// The id of a new record.
pub fn new_id(prefix: &str, micros: i64, random: u32) -> (id: String)
    ensures
        id@ == record_id(prefix@, micros, random),
{
    let mut out: Vec<char> = Vec::new();
    push_str(&mut out, prefix);
    out.push('-');
    if micros < 0 {
        out.push('-');
        let magnitude: u64 = if micros == i64::MIN {
            0x8000_0000_0000_0000
        } else {
            (-micros) as u64
        };
        push_decimal(&mut out, magnitude);
    } else {
        push_decimal(&mut out, micros as u64);
    }
    out.push('-');
    let ghost before = out@;
    out.push(hex_char(random / 0x1000_0000 % 16));
    out.push(hex_char(random / 0x100_0000 % 16));
    out.push(hex_char(random / 0x10_0000 % 16));
    out.push(hex_char(random / 0x1_0000 % 16));
    out.push(hex_char(random / 0x1000 % 16));
    out.push(hex_char(random / 0x100 % 16));
    out.push(hex_char(random / 0x10 % 16));
    out.push(hex_char(random % 16));
    assert(out@ =~= before + hex8(random));
    assert(out@ =~= record_id(prefix@, micros, random));
    string_of(&out)
}

// ---------------------------------------------------------------------------
// Records as they are stored
// ---------------------------------------------------------------------------

/// A record of the history as the store holds it: its text sealed.
#[derive(Debug, Clone)]
pub struct StoredRecord {
    pub id: String,
    /// When it was recorded, in seconds since 1970.
    pub created_at: i64,
    pub text_enc: String,
    pub source: String,
    pub latency_ms: i64,
    pub word_count: usize,
    pub char_count: usize,
    pub dictionary_applied: bool,
    pub snippet_applied: bool,
}

/// The record that is stored of a dictation: its text sealed, its words
/// and characters counted.
pub fn stored_record(input: &HistoryRecordInput, text_enc: String, now: i64, id: String) -> (r:
    StoredRecord)
    ensures
        r.id == id,
        r.created_at == now,
        r.text_enc == text_enc,
        r.source@ == input.source@,
        r.latency_ms == input.latency_ms,
        r.word_count == words_of(input.text@).len(),
        r.char_count == input.text@.len(),
        r.dictionary_applied == input.dictionary_applied,
        r.snippet_applied == input.snippet_applied,
{
    let counts = history_counts(input.text.as_str());
    StoredRecord {
        id,
        created_at: now,
        text_enc,
        source: input.source.clone(),
        latency_ms: input.latency_ms,
        word_count: counts.0,
        char_count: counts.1,
        dictionary_applied: input.dictionary_applied,
        snippet_applied: input.snippet_applied,
    }
}

/// The time of a record as the host shows it: that of its timestamp, or
/// `fallback` for a timestamp out of range.
pub open spec fn shown_time(created_at: i64, fallback: Seq<char>) -> Seq<char> {
    match rfc3339_utc(created_at) {
        Some(t) => t,
        None => fallback,
    }
}

/// Whether a stored record is shown for a search: its text opens and is
/// found by the search.
pub open spec fn is_shown(key: Seq<u8>, record: StoredRecord, query: Option<Seq<char>>) -> bool {
    match opened_text(key, record.text_enc@) {
        Some(text) => found_by(text, query),
        None => false,
    }
}

/// `item` is the record `record` as the host shows it.
pub open spec fn shows(key: Seq<u8>, record: StoredRecord, fallback: Seq<char>, item: HistoryItem) -> bool {
    &&& item.id@ == record.id@
    &&& item.created_at@ == shown_time(record.created_at, fallback)
    &&& Some(item.text@) == opened_text(key, record.text_enc@)
    &&& item.source@ == record.source@
    &&& item.latency_ms == record.latency_ms
    &&& item.word_count == record.word_count
    &&& item.char_count == record.char_count
    &&& item.dictionary_applied == record.dictionary_applied
    &&& item.snippet_applied == record.snippet_applied
}

/// The indices of the records that are shown, in order.
pub open spec fn shown_indices(key: Seq<u8>, records: Seq<StoredRecord>, query: Option<Seq<char>>) -> Seq<
    int,
>
    decreases records.len(),
{
    if records.len() == 0 {
        Seq::empty()
    } else {
        let before = shown_indices(key, records.drop_last(), query);
        if is_shown(key, records.last(), query) {
            before.push(records.len() - 1)
        } else {
            before
        }
    }
}

/// `item` is what the host shows of the record in place `at` among the
/// records that are shown.
pub open spec fn shows_place(
    key: Seq<u8>,
    records: Seq<StoredRecord>,
    query: Option<Seq<char>>,
    fallback: Seq<char>,
    at: int,
    item: HistoryItem,
) -> bool {
    let places = shown_indices(key, records, query);
    &&& 0 <= at < places.len()
    &&& 0 <= places[at] < records.len()
    &&& shows(key, records[places[at]], fallback, item)
}

/// The indices of the records that are shown are indices of records.
proof fn lemma_shown_indices(key: Seq<u8>, records: Seq<StoredRecord>, query: Option<Seq<char>>)
    ensures
        shown_indices(key, records, query).len() <= records.len(),
        forall|k: int|
            0 <= k < shown_indices(key, records, query).len() ==> 0 <= #[trigger] shown_indices(
                key,
                records,
                query,
            )[k] < records.len(),
    decreases records.len(),
{
    if records.len() > 0 {
        lemma_shown_indices(key, records.drop_last(), query);
    }
}

impl TextCipher {
    /// The records as the host shows them for a search: those whose text
    /// opens and is found, in their order. `fallback_time` stands for the
    /// time of a record whose timestamp is out of range.
    pub fn shown_records(
        &self,
        records: &Vec<StoredRecord>,
        query: Option<&str>,
        fallback_time: &str,
    ) -> (items: Vec<HistoryItem>)
        ensures
            items@.len() == shown_indices(self.key(), records@, opt_str_text(query)).len(),
            forall|k: int|
                0 <= k < items@.len() ==> shows_place(
                    self.key(),
                    records@,
                    opt_str_text(query),
                    fallback_time@,
                    k,
                    #[trigger] items@[k],
                ),
    {
        let ghost key = self.key();
        let ghost q = opt_str_text(query);
        let mut items: Vec<HistoryItem> = Vec::new();
        let mut i: usize = 0;
        assert(records@.take(0) =~= Seq::<StoredRecord>::empty());
        while i < records.len()
            invariant
                i <= records.len(),
                key == self.key(),
                q == opt_str_text(query),
                items@.len() == shown_indices(key, records@.take(i as int), q).len(),
                forall|k: int|
                    0 <= k < items@.len() ==> shows_place(
                        key,
                        records@.take(i as int),
                        q,
                        fallback_time@,
                        k,
                        #[trigger] items@[k],
                    ),
            decreases records.len() - i,
        {
            let ghost seen = records@.take(i as int);
            let ghost next = records@.take(i + 1);
            let ghost before = items@;
            proof {
                assert(next.drop_last() =~= seen);
                assert(next.last() == records@[i as int]);
                lemma_shown_indices(key, seen, q);
            }
            let record = &records[i];
            let mut shown = false;
            match self.decrypt(record.text_enc.as_str()) {
                Some(text) => {
                    if matches_query(text.as_str(), query) {
                        let created_at = match ts_to_rfc3339(record.created_at) {
                            Some(t) => t,
                            None => string_of(&chars_of(fallback_time)),
                        };
                        let item = HistoryItem {
                            id: record.id.clone(),
                            created_at,
                            text,
                            source: record.source.clone(),
                            latency_ms: record.latency_ms,
                            word_count: record.word_count,
                            char_count: record.char_count,
                            dictionary_applied: record.dictionary_applied,
                            snippet_applied: record.snippet_applied,
                        };
                        assert(shows(key, *record, fallback_time@, item));
                        assert(is_shown(key, *record, q));
                        items.push(item);
                        shown = true;
                    }
                },
                None => {},
            }
            proof {
                let places = shown_indices(key, seen, q);
                let places_next = shown_indices(key, next, q);
                assert(shown == is_shown(key, records@[i as int], q));
                assert forall|k: int| 0 <= k < items@.len() implies shows_place(
                    key,
                    next,
                    q,
                    fallback_time@,
                    k,
                    #[trigger] items@[k],
                ) by {
                    if k < before.len() {
                        assert(items@[k] == before[k]);
                        assert(shows_place(key, seen, q, fallback_time@, k, before[k]));
                        assert(places_next[k] == places[k]);
                        assert(next[places[k]] == seen[places[k]]);
                    } else {
                        assert(places_next[k] == i);
                        assert(next[i as int] == records@[i as int]);
                    }
                }
            }
            i += 1;
        }
        assert(records@.take(records.len() as int) =~= records@);
        items
    }

    /// The page of the history for a search.
    pub fn history(
        &self,
        records: &Vec<StoredRecord>,
        page: usize,
        page_size: usize,
        query: Option<&str>,
        fallback_time: &str,
    ) -> (p: HistoryPage)
        ensures
            p.total == shown_indices(self.key(), records@, opt_str_text(query)).len(),
            p.page == page_number(page),
            p.page_size == page_size_of(page_size),
            page_start(page, page_size) >= p.total ==> p.items@.len() == 0,
            page_start(page, page_size) < p.total ==> p.items@.len() == page_end(
                page,
                page_size,
                p.total as int,
            ) - page_start(page, page_size),
            forall|k: int|
                0 <= k < p.items@.len() ==> shows_place(
                    self.key(),
                    records@,
                    opt_str_text(query),
                    fallback_time@,
                    page_start(page, page_size) + k,
                    #[trigger] p.items@[k],
                ),
    {
        let items = self.shown_records(records, query, fallback_time);
        let p = history_page(&items, page, page_size);
        proof {
            assert forall|k: int| 0 <= k < p.items@.len() implies shows_place(
                self.key(),
                records@,
                opt_str_text(query),
                fallback_time@,
                page_start(page, page_size) + k,
                #[trigger] p.items@[k],
            ) by {
                let at = page_start(page, page_size) + k;
                assert(same_item(p.items@[k], items@[at]));
                assert(shows_place(
                    self.key(),
                    records@,
                    opt_str_text(query),
                    fallback_time@,
                    at,
                    items@[at],
                ));
            }
        }
        p
    }
}

// ---------------------------------------------------------------------------
// Entries of the dictionary and snippets as they are stored
// ---------------------------------------------------------------------------

/// Whether an entry is new: it has no id yet.
pub open spec fn is_new_entry(id: Seq<char>) -> bool {
    trimmed(id).len() == 0
}

/// An entry of the dictionary as it is stored and handed back: a new one
/// gets `fresh_id` and its time of creation; every one gets its time of change.
pub fn stamp_dictionary_entry(
    entry: crate::transform::DictionaryEntry,
    now_text: &str,
    fresh_id: String,
) -> (r: crate::transform::DictionaryEntry)
    ensures
        r.id@ == if is_new_entry(entry.id@) {
            fresh_id@
        } else {
            entry.id@
        },
        r.created_at@ == if is_new_entry(entry.id@) {
            now_text@
        } else {
            entry.created_at@
        },
        r.updated_at@ == now_text@,
        r.term == entry.term,
        r.aliases == entry.aliases,
        r.language == entry.language,
        r.enabled == entry.enabled,
{
    let mut entry = entry;
    if trim(&chars_of(entry.id.as_str())).len() == 0 {
        entry.id = fresh_id;
        entry.created_at = string_of(&chars_of(now_text));
    }
    entry.updated_at = string_of(&chars_of(now_text));
    entry
}

/// A snippet as it is stored and handed back: a new one gets `fresh_id`
/// and its time of creation; every one gets its time of change, and its
/// mode is `phrase` or `slash`.
pub fn stamp_snippet(entry: crate::transform::SnippetEntry, now_text: &str, fresh_id: String) -> (r:
    crate::transform::SnippetEntry)
    ensures
        r.id@ == if is_new_entry(entry.id@) {
            fresh_id@
        } else {
            entry.id@
        },
        r.created_at@ == if is_new_entry(entry.id@) {
            now_text@
        } else {
            entry.created_at@
        },
        r.updated_at@ == now_text@,
        r.mode@ == if entry.mode@ == "phrase"@ {
            "phrase"@
        } else {
            "slash"@
        },
        r.trigger == entry.trigger,
        r.expansion == entry.expansion,
        r.enabled == entry.enabled,
{
    let mut entry = entry;
    if trim(&chars_of(entry.id.as_str())).len() == 0 {
        entry.id = fresh_id;
        entry.created_at = string_of(&chars_of(now_text));
    }
    entry.updated_at = string_of(&chars_of(now_text));
    entry.mode = normalize_snippet_mode(entry.mode.as_str());
    entry
}

/// A text as it is written to the store: trimmed.
pub fn stored_text(text: &str) -> (s: String)
    ensures
        s@ == trimmed(text@),
{
    string_of(&trim(&chars_of(text)))
}

} // verus!
