//! Updates of the host application: versions, release assets and the
//! checksum of an installer.

use vstd::prelude::*;
use vstd::string::*;
use sha2::{Digest, Sha256};
use crate::text::{
    chars_equal, chars_of, contains, ends_with, equals_str, has_infix, has_prefix, has_suffix,
    is_ascii_alnum, is_ascii_alphanumeric, is_ascii_hexdigit, is_hex_digit, lower, lowered,
    parse_u64, parsed_u64, push_chars, push_str, split_chars, split_fields, string_of,
    strip_leading, strip_trailing, trim, trimmed, views, without_leading, without_trailing,
};

verus! {

/// What a check for an update found.
#[derive(Debug, Clone)]
pub struct AppUpdateInfo {
    pub current_version: String,
    pub latest_version: String,
    pub has_update: bool,
    pub repo_slug: String,
    pub release_name: Option<String>,
    pub release_notes: Option<String>,
    pub published_at: Option<String>,
    pub html_url: String,
    pub asset_name: Option<String>,
    pub asset_download_url: Option<String>,
    pub checksum_asset_name: Option<String>,
    pub checksum_asset_download_url: Option<String>,
    pub expected_installer_sha256: Option<String>,
}

/// The repository that updates come from where none is named.
pub open spec fn default_repo_slug() -> Seq<char> {
    "latticelabs/dictum"@
}

// ---------------------------------------------------------------------------
// Versions
// ---------------------------------------------------------------------------

/// A version tag without the `v` or `V` before the number.
pub open spec fn version_text(tag: Seq<char>) -> Seq<char> {
    without_leading(without_leading(trimmed(tag), 'v'), 'V')
}

/// The field of index `i`, or `0` where there is none.
pub open spec fn field_or_zero(fields: Seq<Seq<char>>, i: int) -> Seq<char> {
    if i < fields.len() {
        fields[i]
    } else {
        seq!['0']
    }
}

/// The three numbers of a version: what stands before any `-` or `+`,
/// read as numbers between dots; the second and third are 0 where they are
/// missing. A version whose numbers cannot be read has none.
pub open spec fn version_numbers(raw: Seq<char>) -> Option<(u64, u64, u64)> {
    let core = trimmed(split_fields(version_text(raw), seq!['-', '+'])[0]);
    let parts = split_fields(core, seq!['.']);
    match (
        parsed_u64(parts[0]),
        parsed_u64(field_or_zero(parts, 1)),
        parsed_u64(field_or_zero(parts, 2)),
    ) {
        (Some(major), Some(minor), Some(patch)) => Some((major, minor, patch)),
        _ => None,
    }
}

/// The version `b` is newer than `a`.
pub open spec fn is_newer(a: (u64, u64, u64), b: (u64, u64, u64)) -> bool {
    b.0 > a.0 || (b.0 == a.0 && (b.1 > a.1 || (b.1 == a.1 && b.2 > a.2)))
}

/// Whether a release is an update: its version is the newer one or, where
/// versions cannot be read, another one; and it is no prerelease.
pub open spec fn is_update(current: Seq<char>, tag: Seq<char>, prerelease: bool) -> bool {
    !prerelease && match (version_numbers(current), version_numbers(version_text(tag))) {
        (Some(c), Some(l)) => is_newer(c, l),
        _ => trimmed(current) != trimmed(version_text(tag)),
    }
}

fn seps_of(a: char, b: Option<char>) -> (v: Vec<char>)
    ensures
        v@ == match b {
            Some(c) => seq![a, c],
            None => seq![a],
        },
{
    let mut v: Vec<char> = Vec::new();
    v.push(a);
    match b {
        Some(c) => {
            v.push(c);
            assert(v@ =~= seq![a, c]);
        },
        None => {
            assert(v@ =~= seq![a]);
        },
    }
    v
}

fn version_chars(tag: &Vec<char>) -> (r: Vec<char>)
    ensures
        r@ == version_text(tag@),
{
    strip_leading(&strip_leading(&trim(tag), 'v'), 'V')
}

fn zero() -> (v: Vec<char>)
    ensures
        v@ == seq!['0'],
{
    let mut v: Vec<char> = Vec::new();
    v.push('0');
    assert(v@ =~= seq!['0']);
    v
}

fn version_of(raw: &Vec<char>) -> (r: Option<(u64, u64, u64)>)
    ensures
        r == version_numbers(raw@),
{
    let heads = split_chars(&version_chars(raw), &seps_of('-', Some('+')));
    assert(views(heads@)[0] == heads@[0]@);
    let core = trim(&heads[0]);
    let parts = split_chars(&core, &seps_of('.', None));
    assert(views(parts@)[0] == parts@[0]@);
    let major = parse_u64(&parts[0]);
    let minor = if parts.len() > 1 {
        assert(views(parts@)[1] == parts@[1]@);
        parse_u64(&parts[1])
    } else {
        parse_u64(&zero())
    };
    let patch = if parts.len() > 2 {
        assert(views(parts@)[2] == parts@[2]@);
        parse_u64(&parts[2])
    } else {
        parse_u64(&zero())
    };
    match (major, minor, patch) {
        (Some(a), Some(b), Some(c)) => Some((a, b, c)),
        _ => None,
    }
}

/// The three numbers of a version.
pub fn version_tuple(raw: &str) -> (r: Option<(u64, u64, u64)>)
    ensures
        r == version_numbers(raw@),
{
    version_of(&chars_of(raw))
}

/// The version that a release tag names.
pub fn latest_version(tag: &str) -> (v: String)
    ensures
        v@ == version_text(tag@),
{
    string_of(&version_chars(&chars_of(tag)))
}

/// Whether the release is an update for the version that runs.
pub fn has_update(current_version: &str, tag: &str, prerelease: bool) -> (b: bool)
    ensures
        b == is_update(current_version@, tag@, prerelease),
{
    if prerelease {
        return false;
    }
    let current = chars_of(current_version);
    let latest = version_chars(&chars_of(tag));
    match (version_of(&current), version_of(&latest)) {
        (Some(c), Some(l)) => l.0 > c.0 || (l.0 == c.0 && (l.1 > c.1 || (l.1 == c.1 && l.2
            > c.2))),
        _ => !chars_equal(&trim(&current), &trim(&latest)),
    }
}

// ---------------------------------------------------------------------------
// The repository
// ---------------------------------------------------------------------------

/// Whether a character may stand in the name of an owner or a repository.
pub open spec fn is_slug_char(c: char) -> bool {
    is_ascii_alnum(c) || c == '-' || c == '_' || c == '.'
}

/// Every character of `s` may stand in such a name.
pub open spec fn is_slug_part(s: Seq<char>) -> bool {
    forall|i: int| 0 <= i < s.len() ==> is_slug_char(#[trigger] s[i])
}

/// The repository as it was given: trimmed, without slashes around it, in small letters.
pub open spec fn slug_text(chosen: Seq<char>) -> Seq<char> {
    lowered(without_trailing(without_leading(trimmed(chosen), '/'), '/'))
}

/// Why a repository is refused.
#[derive(Debug, Clone, Copy, PartialEq, Eq, Structural)]
pub enum SlugError {
    /// Nothing is left of the name.
    Empty,
    /// The name is not an owner and a repository with one slash between.
    BadForm,
    /// A character may not stand in such a name.
    BadCharacter,
}

impl SlugError {
    /// The message for the user.
    pub fn message(&self) -> (s: String)
        ensures
            s@ == match self {
                SlugError::Empty => "Update repository cannot be empty."@,
                SlugError::BadForm => "Update repository must be in the form owner/repo."@,
                SlugError::BadCharacter => "Update repository contains invalid characters."@,
            },
    {
        match self {
            SlugError::Empty => String::from_str("Update repository cannot be empty."),
            SlugError::BadForm => String::from_str(
                "Update repository must be in the form owner/repo.",
            ),
            SlugError::BadCharacter => String::from_str(
                "Update repository contains invalid characters.",
            ),
        }
    }
}

/// The repository `owner/repo` that a setting names, or why it names none.
pub open spec fn repo_slug_of(chosen: Seq<char>) -> Result<Seq<char>, SlugError> {
    let slug = slug_text(chosen);
    let parts = split_fields(slug, seq!['/']);
    if slug.len() == 0 {
        Err(SlugError::Empty)
    } else if parts.len() != 2 || parts[0].len() == 0 || parts[1].len() == 0 {
        Err(SlugError::BadForm)
    } else if !is_slug_part(parts[0]) || !is_slug_part(parts[1]) {
        Err(SlugError::BadCharacter)
    } else {
        Ok(parts[0] + seq!['/'] + parts[1])
    }
}

/// What is chosen of what was asked for, what is configured, and the default.
pub open spec fn chosen_repo(input: Option<Seq<char>>, configured: Option<Seq<char>>) -> Seq<char> {
    match input {
        Some(i) => i,
        None => match configured {
            Some(c) => c,
            None => default_repo_slug(),
        },
    }
}

fn slug_part_is_valid(part: &Vec<char>) -> (b: bool)
    ensures
        b == is_slug_part(part@),
{
    let mut i: usize = 0;
    while i < part.len()
        invariant
            i <= part.len(),
            forall|j: int| 0 <= j < i ==> is_slug_char(#[trigger] part@[j]),
        decreases part.len() - i,
    {
        let c = part[i];
        if !(is_ascii_alphanumeric(c) || c == '-' || c == '_' || c == '.') {
            return false;
        }
        i += 1;
    }
    true
}

/// The repository that updates come from: the one that was asked for,
/// else the configured one, else the default; as `owner/repo`.
pub fn normalize_repo_slug(input: Option<&str>, configured: Option<&str>) -> (r: Result<
    String,
    SlugError,
>)
    ensures
        match r {
            Ok(s) => Ok::<Seq<char>, SlugError>(s@),
            Err(e) => Err(e),
        } == repo_slug_of(
            chosen_repo(crate::text::opt_str_text(input), crate::text::opt_str_text(configured)),
        ),
{
    let chosen = match input {
        Some(i) => chars_of(i),
        None => match configured {
            Some(c) => chars_of(c),
            None => chars_of("latticelabs/dictum"),
        },
    };
    let slug = lower(&strip_trailing(&strip_leading(&trim(&chosen), '/'), '/'));
    if slug.len() == 0 {
        return Err(SlugError::Empty);
    }
    let parts = split_chars(&slug, &seps_of('/', None));
    if parts.len() != 2 {
        return Err(SlugError::BadForm);
    }
    assert(views(parts@)[0] == parts@[0]@);
    assert(views(parts@)[1] == parts@[1]@);
    if parts[0].len() == 0 || parts[1].len() == 0 {
        return Err(SlugError::BadForm);
    }
    if !slug_part_is_valid(&parts[0]) || !slug_part_is_valid(&parts[1]) {
        return Err(SlugError::BadCharacter);
    }
    let mut out: Vec<char> = Vec::new();
    push_chars(&mut out, &parts[0]);
    out.push('/');
    push_chars(&mut out, &parts[1]);
    assert(out@ =~= parts@[0]@ + seq!['/'] + parts@[1]@);
    Ok(string_of(&out))
}

// ---------------------------------------------------------------------------
// File names and assets
// ---------------------------------------------------------------------------

/// Whether a character may stand in the name of a downloaded file.
pub open spec fn is_file_char(c: char) -> bool {
    is_ascii_alnum(c) || c == '.' || c == '-' || c == '_'
}

/// The name with an underscore for each character that may not stand in it.
pub open spec fn cleaned_name(raw: Seq<char>) -> Seq<char> {
    Seq::new(
        raw.len(),
        |i: int|
            if is_file_char(raw[i]) {
                raw[i]
            } else {
                '_'
            },
    )
}

/// The name under which an installer is stored: cleaned, the default name
/// where nothing is left, and ending in `.exe`.
pub open spec fn installer_file_name(raw: Seq<char>) -> Seq<char> {
    let named = if raw.len() == 0 {
        "dictum-update.exe"@
    } else {
        cleaned_name(raw)
    };
    if has_suffix(lowered(named), ".exe"@) {
        named
    } else {
        named + ".exe"@
    }
}

/// The name under which an installer is stored.
pub fn sanitize_filename(raw: &str) -> (out: String)
    ensures
        out@ == installer_file_name(raw@),
{
    let chars = chars_of(raw);
    let mut cleaned: Vec<char> = Vec::new();
    let mut i: usize = 0;
    while i < chars.len()
        invariant
            i <= chars.len(),
            cleaned@.len() == i,
            forall|j: int| 0 <= j < i ==> cleaned@[j] == cleaned_name(chars@)[j],
        decreases chars.len() - i,
    {
        let c = chars[i];
        if is_ascii_alphanumeric(c) || c == '.' || c == '-' || c == '_' {
            cleaned.push(c);
        } else {
            cleaned.push('_');
        }
        i += 1;
    }
    assert(cleaned@ =~= cleaned_name(chars@));
    if cleaned.len() == 0 {
        cleaned = chars_of("dictum-update.exe");
    }
    if !ends_with(&lower(&cleaned), &chars_of(".exe")) {
        push_str(&mut cleaned, ".exe");
    }
    string_of(&cleaned)
}

/// The texts of a vector of names.
pub open spec fn asset_names(names: Seq<String>) -> Seq<Seq<char>> {
    Seq::new(names.len(), |i: int| names[i]@)
}

/// How well the name of an asset suits an installer: 4 for a name that
/// ends in `-setup.exe`, 3 for one with `setup` that ends in `.exe`, 2 for
/// an `.msi`, 1 for any other `.exe`, 0 for anything else.
pub open spec fn installer_rank(name: Seq<char>) -> int {
    let n = lowered(name);
    if has_suffix(n, "-setup.exe"@) {
        4
    } else if has_infix(n, "setup"@) && has_suffix(n, ".exe"@) {
        3
    } else if has_suffix(n, ".msi"@) {
        2
    } else if has_suffix(n, ".exe"@) {
        1
    } else {
        0
    }
}

/// `i` is the installer among the assets: its name suits an installer,
/// none suits better, and none before it suits as well.
pub open spec fn is_installer_choice(names: Seq<Seq<char>>, i: int) -> bool {
    &&& 0 <= i < names.len()
    &&& installer_rank(names[i]) > 0
    &&& forall|j: int|
        0 <= j < names.len() ==> installer_rank(#[trigger] names[j]) <= installer_rank(names[i])
    &&& forall|j: int| 0 <= j < i ==> installer_rank(#[trigger] names[j]) < installer_rank(names[i])
}

fn rank_of(name: &str) -> (r: u8)
    ensures
        r == installer_rank(name@),
{
    let n = lower(&chars_of(name));
    let exe = ends_with(&n, &chars_of(".exe"));
    if ends_with(&n, &chars_of("-setup.exe")) {
        4
    } else if contains(&n, &chars_of("setup")) && exe {
        3
    } else if ends_with(&n, &chars_of(".msi")) {
        2
    } else if exe {
        1
    } else {
        0
    }
}

/// The index of the installer among the assets of a release, if one suits.
pub fn select_installer_asset(names: &Vec<String>) -> (r: Option<usize>)
    ensures
        r is None <==> forall|j: int|
            0 <= j < names@.len() ==> installer_rank(#[trigger] asset_names(names@)[j]) == 0,
        r matches Some(i) ==> is_installer_choice(asset_names(names@), i as int),
{
    let mut best: Option<usize> = None;
    let mut best_rank: u8 = 0;
    let mut i: usize = 0;
    while i < names.len()
        invariant
            i <= names.len(),
            best is None ==> best_rank == 0,
            forall|j: int|
                0 <= j < i ==> installer_rank(#[trigger] asset_names(names@)[j]) <= best_rank,
            best matches Some(b) ==> {
                &&& b < i
                &&& best_rank > 0
                &&& best_rank == installer_rank(asset_names(names@)[b as int])
                &&& forall|j: int|
                    0 <= j < b ==> installer_rank(#[trigger] asset_names(names@)[j]) < best_rank
            },
        decreases names.len() - i,
    {
        assert(asset_names(names@)[i as int] == names@[i as int]@);
        let rank = rank_of(names[i].as_str());
        if rank > best_rank {
            best = Some(i);
            best_rank = rank;
        }
        i += 1;
    }
    best
}

/// Whether an asset is the list of checksums of a release.
pub open spec fn is_checksums_name(name: Seq<char>) -> bool {
    let n = lowered(name);
    n == "sha256sums.txt"@ || has_suffix(n, "/sha256sums.txt"@)
}

/// The index of the list of checksums among the assets of a release: the
/// first asset of that name.
pub fn select_checksums_asset(names: &Vec<String>) -> (r: Option<usize>)
    ensures
        r is None <==> forall|j: int|
            0 <= j < names@.len() ==> !is_checksums_name(#[trigger] asset_names(names@)[j]),
        r matches Some(i) ==> i < names@.len() && is_checksums_name(asset_names(names@)[i as int])
            && forall|j: int| 0 <= j < i ==> !is_checksums_name(#[trigger] asset_names(names@)[j]),
{
    let mut i: usize = 0;
    while i < names.len()
        invariant
            i <= names.len(),
            forall|j: int| 0 <= j < i ==> !is_checksums_name(#[trigger] asset_names(names@)[j]),
        decreases names.len() - i,
    {
        assert(asset_names(names@)[i as int] == names@[i as int]@);
        let n = lower(&chars_of(names[i].as_str()));
        if equals_str(&n, "sha256sums.txt") || ends_with(&n, &chars_of("/sha256sums.txt")) {
            return Some(i);
        }
        i += 1;
    }
    None
}

// ---------------------------------------------------------------------------
// Checksums
// ---------------------------------------------------------------------------

/// Every character of `s` is a hexadecimal digit.
pub open spec fn all_hex(s: Seq<char>) -> bool {
    forall|i: int| 0 <= i < s.len() ==> is_hex_digit(#[trigger] s[i])
}

/// A checksum as it is compared: trimmed, without the asterisk that marks
/// a binary file, in small letters; a text that is not 64 hexadecimal
/// digits is no checksum.
pub open spec fn sha256_hex_of(raw: Seq<char>) -> Option<Seq<char>> {
    let candidate = lowered(without_leading(trimmed(raw), '*'));
    if candidate.len() == 64 && all_hex(candidate) {
        Some(candidate)
    } else {
        None
    }
}

fn is_all_hex(s: &Vec<char>) -> (b: bool)
    ensures
        b == all_hex(s@),
{
    let mut i: usize = 0;
    while i < s.len()
        invariant
            i <= s.len(),
            forall|j: int| 0 <= j < i ==> is_hex_digit(#[trigger] s@[j]),
        decreases s.len() - i,
    {
        if !is_ascii_hexdigit(s[i]) {
            return false;
        }
        i += 1;
    }
    true
}

/// A checksum as it is compared.
pub fn normalize_sha256_hex(raw: &str) -> (r: Option<String>)
    ensures
        crate::text::opt_text(r) == sha256_hex_of(raw@),
{
    let candidate = lower(&strip_leading(&trim(&chars_of(raw)), '*'));
    if candidate.len() == 64 && is_all_hex(&candidate) {
        Some(string_of(&candidate))
    } else {
        None
    }
}

/// A name as it is compared: trimmed, without the asterisk that marks a
/// binary file, in small letters.
pub open spec fn listed_name(raw: Seq<char>) -> Seq<char> {
    lowered(without_leading(trimmed(raw), '*'))
}

/// What a line of a list of checksums says: the name of a file and its
/// checksum, whichever of the first two words is the checksum. An empty
/// line, a comment, a line of one word and a line without a checksum say nothing.
pub open spec fn sums_line(line: Seq<char>) -> Option<(Seq<char>, Seq<char>)> {
    let raw = trimmed(line);
    let parts = crate::text::words_of(raw);
    if raw.len() == 0 || raw[0] == '#' || parts.len() < 2 {
        None
    } else {
        match sha256_hex_of(parts[0]) {
            Some(hash) => Some((listed_name(parts[1]), hash)),
            None => match sha256_hex_of(parts[1]) {
                Some(hash) => Some((listed_name(parts[0]), hash)),
                None => None,
            },
        }
    }
}

fn checksum_of(raw: &Vec<char>) -> (r: Option<Vec<char>>)
    ensures
        match r {
            Some(h) => Some(h@),
            None => None,
        } == sha256_hex_of(raw@),
{
    let candidate = lower(&strip_leading(&trim(raw), '*'));
    if candidate.len() == 64 && is_all_hex(&candidate) {
        Some(candidate)
    } else {
        None
    }
}

/// What a line of a list of checksums says.
pub fn parse_sums_line(line: &str) -> (r: Option<(String, String)>)
    ensures
        match r {
            Some((name, hash)) => Some((name@, hash@)),
            None => None,
        } == sums_line(line@),
{
    let raw = trim(&chars_of(line));
    if raw.len() == 0 || raw[0] == '#' {
        return None;
    }
    let parts = crate::text::split_whitespace(&raw);
    if parts.len() < 2 {
        return None;
    }
    assert(views(parts@)[0] == parts@[0]@);
    assert(views(parts@)[1] == parts@[1]@);
    match checksum_of(&parts[0]) {
        Some(hash) => Some(
            (string_of(&lower(&strip_leading(&trim(&parts[1]), '*'))), string_of(&hash)),
        ),
        None => match checksum_of(&parts[1]) {
            Some(hash) => Some(
                (string_of(&lower(&strip_leading(&trim(&parts[0]), '*'))), string_of(&hash)),
            ),
            None => None,
        },
    }
}

/// `Path::file_name` of the standard library: the last component of a
/// path, as the platform reads paths. What it is depends on the platform,
/// so nothing is claimed of it.
#[verifier::external_body]
fn path_file_name(path: &str) -> (name: Option<String>) {
    std::path::Path::new(path).file_name().and_then(|v| v.to_str()).map(|v| v.to_string())
}

/// The name that stands for the file of a path, given what the platform
/// found as the last component of the path: that component where it is a
/// part of the path, and the path itself where none was found or what was
/// found is no part of it.
pub open spec fn name_in_path(path: Seq<char>, found: Option<Seq<char>>) -> Seq<char> {
    match found {
        Some(name) => if has_infix(path, name) {
            name
        } else {
            path
        },
        None => path,
    }
}

/// The name that stands for the file of a path, given what the platform
/// found as the last component of the path.
pub fn name_or_path(path: &str, found: Option<String>) -> (name: String)
    ensures
        name@ == name_in_path(path@, crate::text::opt_text(found)),
        has_infix(path@, name@),
{
    proof {
        assert(path@.subrange(0, path@.len() as int) =~= path@);
        assert(crate::text::occurs_at(path@, path@, 0));
    }
    match found {
        Some(n) => {
            if contains(&chars_of(path), &chars_of(n.as_str())) {
                n
            } else {
                String::from_str(path)
            }
        },
        None => String::from_str(path),
    }
}

/// The name of the file that a path leads to, or the path itself where the
/// platform finds no such name in it. Which part of the path the platform
/// takes for the name is its own affair; whatever it takes, the name is a
/// part of the path.
fn base_name(path: &str) -> (name: String)
    ensures
        has_infix(path@, name@),
        exists|found: Option<Seq<char>>| name@ == #[trigger] name_in_path(path@, found),
{
    let found = path_file_name(path);
    let ghost seen = crate::text::opt_text(found);
    let name = name_or_path(path, found);
    assert(name@ == name_in_path(path@, seen));
    name
}

/// Whether an entry of a list of checksums is that of the wanted file:
/// the names are the same, or the names of the files that they lead to are.
pub open spec fn is_entry_for(
    name: Seq<char>,
    name_base: Seq<char>,
    target: Seq<char>,
    target_base: Seq<char>,
) -> bool {
    name == target || name_base == target_base
}

/// Whether an entry of a list of checksums is that of the wanted file.
pub fn entry_matches(name: &str, name_base: &str, target: &str, target_base: &str) -> (b: bool)
    ensures
        b == is_entry_for(name@, name_base@, target@, target_base@),
{
    crate::text::str_eq(name, target) || crate::text::str_eq(name_base, target_base)
}

/// The checksum that a line of a list of checksums gives.
pub open spec fn checksum_on_line(line: Seq<char>) -> Option<Seq<char>> {
    match sums_line(line) {
        Some(entry) => Some(entry.1),
        None => None,
    }
}

/// Whether a line of a list of checksums names the file `target`.
pub open spec fn names_file(line: Seq<char>, target: Seq<char>) -> bool {
    match sums_line(line) {
        Some(entry) => entry.0 == target,
        None => false,
    }
}

/// The lines of a text.
pub open spec fn lines_of(contents: Seq<char>) -> Seq<Seq<char>> {
    split_fields(contents, seq!['\n'])
}

/// The name of a file as it is looked for in a list of checksums: trimmed, in small letters.
pub open spec fn wanted_name(file_name: Seq<char>) -> Seq<char> {
    lowered(trimmed(file_name))
}

/// `hash` is the checksum of line `i`, and no line before it names the file `target`.
pub open spec fn is_found_on_line(
    lines: Seq<Seq<char>>,
    target: Seq<char>,
    i: int,
    hash: Seq<char>,
) -> bool {
    &&& 0 <= i < lines.len()
    &&& checksum_on_line(lines[i]) == Some(hash)
    &&& forall|j: int| 0 <= j < i ==> !names_file(#[trigger] lines[j], target)
}

/// The checksum that a list of checksums gives for a file: that of the
/// first line whose entry is that of the file, by its name or by the name
/// of the file that its path leads to. A line that names the file is always
/// found; which other lines lead to the same file is for the platform to say,
/// so of those the contract says only that the checksum found stands on a
/// line of the list, before any line that names the file.
pub fn parse_sha256_from_sums(contents: &str, file_name: &str) -> (r: Option<String>)
    ensures
        r matches Some(hash) ==> (exists|i: int| #[trigger]
            is_found_on_line(lines_of(contents@), wanted_name(file_name@), i, hash@)),
        r is None ==> forall|i: int|
            0 <= i < lines_of(contents@).len() ==> !names_file(
                #[trigger] lines_of(contents@)[i],
                wanted_name(file_name@),
            ),
{
    let target = string_of(&lower(&trim(&chars_of(file_name))));
    let target_base = base_name(target.as_str());
    let lines = split_chars(&chars_of(contents), &seps_of('\n', None));
    let mut i: usize = 0;
    while i < lines.len()
        invariant
            i <= lines.len(),
            views(lines@) == lines_of(contents@),
            target@ == wanted_name(file_name@),
            forall|j: int| 0 <= j < i ==> !names_file(#[trigger] lines_of(contents@)[j], target@),
        decreases lines.len() - i,
    {
        assert(views(lines@)[i as int] == lines@[i as int]@);
        let line = string_of(&lines[i]);
        match parse_sums_line(line.as_str()) {
            Some((name, hash)) => {
                let name_base = base_name(name.as_str());
                if entry_matches(
                    name.as_str(),
                    name_base.as_str(),
                    target.as_str(),
                    target_base.as_str(),
                ) {
                    let found = Some(hash);
                    assert(found matches Some(h) && is_found_on_line(
                        lines_of(contents@),
                        wanted_name(file_name@),
                        i as int,
                        h@,
                    ));
                    return found;
                }
            },
            None => {},
        }
        i += 1;
    }
    None
}

/// The SHA-256 digest of a sequence of bytes.
pub uninterp spec fn sha256(bytes: Seq<u8>) -> Seq<u8>;

/// `Sha256::digest` of the `sha2` crate: the digest of the bytes, computed
/// in one go. The contract names the digest; it says nothing of its value.
#[verifier::external_body]
pub(crate) fn sha256_digest(bytes: &[u8]) -> (digest: Vec<u8>)
    ensures
        digest@ == sha256(bytes@),
{
    Sha256::digest(bytes).to_vec()
}

/// The hexadecimal digit of a number under 16, in small letters.
pub open spec fn hex_digit(n: int) -> char {
    if n < 10 {
        ((48 + n) as u8) as char
    } else {
        ((87 + n) as u8) as char
    }
}

/// The bytes in hexadecimal, two small digits a byte.
pub open spec fn hex_of(bytes: Seq<u8>) -> Seq<char>
    decreases bytes.len(),
{
    if bytes.len() == 0 {
        Seq::empty()
    } else {
        hex_of(bytes.drop_last()).push(hex_digit(bytes.last() as int / 16)).push(
            hex_digit(bytes.last() as int % 16),
        )
    }
}

fn hex_char(n: u8) -> (c: char)
    requires
        n < 16,
    ensures
        c == hex_digit(n as int),
{
    if n < 10 {
        (48 + n) as char
    } else {
        (87 + n) as char
    }
}

/// The bytes in hexadecimal.
pub fn to_hex(bytes: &Vec<u8>) -> (out: String)
    ensures
        out@ == hex_of(bytes@),
{
    let mut out: Vec<char> = Vec::new();
    let mut i: usize = 0;
    assert(bytes@.take(0) =~= Seq::<u8>::empty());
    while i < bytes.len()
        invariant
            i <= bytes.len(),
            out@ == hex_of(bytes@.take(i as int)),
        decreases bytes.len() - i,
    {
        let b = bytes[i];
        assert(bytes@.take(i + 1).drop_last() =~= bytes@.take(i as int));
        out.push(hex_char(b / 16));
        out.push(hex_char(b % 16));
        i += 1;
    }
    assert(bytes@.take(bytes.len() as int) == bytes@);
    string_of(&out)
}

/// The checksum of an installer, in hexadecimal.
pub fn installer_sha256(bytes: &Vec<u8>) -> (hex: String)
    ensures
        hex@ == hex_of(sha256(bytes@)),
{
    to_hex(&sha256_digest(bytes.as_slice()))
}

/// The message for a checksum that is not the expected one.
pub open spec fn mismatch_message(expected: Seq<char>, actual: Seq<char>) -> Seq<char> {
    "installer checksum mismatch (expected "@ + expected + ", got "@ + actual + ")"@
}

/// What the comparison of a checksum with the expected one comes to: the
/// checksum where they are the same text, the message where they are not.
pub open spec fn checksum_verdict(actual: Seq<char>, expected: Seq<char>) -> Result<
    Seq<char>,
    Seq<char>,
> {
    if actual == expected {
        Ok(actual)
    } else {
        Err(mismatch_message(expected, actual))
    }
}

/// Compares the checksum of an installer with the expected one.
pub fn check_installer_sha256(actual: String, expected: &str) -> (r: Result<String, String>)
    ensures
        match r {
            Ok(s) => Ok::<Seq<char>, Seq<char>>(s@),
            Err(e) => Err(e@),
        } == checksum_verdict(actual@, expected@),
{
    if crate::text::str_eq(actual.as_str(), expected) {
        Ok(actual)
    } else {
        let mut m: Vec<char> = Vec::new();
        push_str(&mut m, "installer checksum mismatch (expected ");
        push_str(&mut m, expected);
        push_str(&mut m, ", got ");
        push_str(&mut m, actual.as_str());
        push_str(&mut m, ")");
        Err(string_of(&m))
    }
}

/// Verifies an installer against the checksum that is expected of it:
/// its own checksum where that is the expected one, else the message.
pub fn verify_installer(bytes: &Vec<u8>, expected_sha256: &str) -> (r: Result<String, String>)
    ensures
        match r {
            Ok(s) => Ok::<Seq<char>, Seq<char>>(s@),
            Err(e) => Err(e@),
        } == checksum_verdict(hex_of(sha256(bytes@)), expected_sha256@),
{
    check_installer_sha256(installer_sha256(bytes), expected_sha256)
}

// ---------------------------------------------------------------------------
// The release feed
// ---------------------------------------------------------------------------

/// The address at which the latest release of a repository is announced.
pub open spec fn feed_url_of(repo_slug: Seq<char>) -> Seq<char> {
    "https://api.github.com/repos/"@ + repo_slug + "/releases/latest"@
}

/// The address at which the latest release of a repository is announced.
pub fn release_feed_url(repo_slug: &str) -> (url: String)
    ensures
        url@ == feed_url_of(repo_slug@),
{
    let mut out: Vec<char> = Vec::new();
    push_str(&mut out, "https://api.github.com/repos/");
    push_str(&mut out, repo_slug);
    push_str(&mut out, "/releases/latest");
    string_of(&out)
}

/// A file of a release.
#[derive(Debug, Clone)]
pub struct ReleaseAsset {
    pub name: String,
    pub browser_download_url: String,
}

/// A release as the feed announces it.
#[derive(Debug, Clone)]
pub struct Release {
    pub tag_name: String,
    pub name: Option<String>,
    pub body: Option<String>,
    pub html_url: String,
    pub published_at: Option<String>,
    pub draft: bool,
    pub prerelease: bool,
    pub assets: Vec<ReleaseAsset>,
}

/// The names of the files of a release.
pub open spec fn release_asset_names(assets: Seq<ReleaseAsset>) -> Seq<Seq<char>> {
    Seq::new(assets.len(), |i: int| assets[i].name@)
}

/// The message for a release that is still a draft.
pub open spec fn draft_message() -> Seq<char> {
    "Latest GitHub release is still marked as draft."@
}

fn names_of_assets(assets: &Vec<ReleaseAsset>) -> (names: Vec<String>)
    ensures
        asset_names(names@) == release_asset_names(assets@),
        names@.len() == assets@.len(),
{
    let mut names: Vec<String> = Vec::new();
    let mut i: usize = 0;
    while i < assets.len()
        invariant
            i <= assets.len(),
            names@.len() == i,
            forall|j: int| 0 <= j < i ==> (#[trigger] names@[j])@ == assets@[j].name@,
        decreases assets.len() - i,
    {
        names.push(assets[i].name.clone());
        i += 1;
    }
    assert(asset_names(names@) =~= release_asset_names(assets@));
    names
}

/// The installer of a release, if one of its files suits.
pub fn release_installer(release: &Release) -> (r: Option<usize>)
    ensures
        r is None <==> forall|j: int|
            0 <= j < release.assets@.len() ==> installer_rank(
                #[trigger] release_asset_names(release.assets@)[j],
            ) == 0,
        r matches Some(i) ==> is_installer_choice(release_asset_names(release.assets@), i as int),
{
    select_installer_asset(&names_of_assets(&release.assets))
}

/// The list of checksums of a release, if it has one.
pub fn release_checksums(release: &Release) -> (r: Option<usize>)
    ensures
        r is None <==> forall|j: int|
            0 <= j < release.assets@.len() ==> !is_checksums_name(
                #[trigger] release_asset_names(release.assets@)[j],
            ),
        r matches Some(i) ==> i < release.assets@.len() && is_checksums_name(
            release_asset_names(release.assets@)[i as int],
        ) && forall|j: int|
            0 <= j < i ==> !is_checksums_name(#[trigger] release_asset_names(release.assets@)[j]),
{
    select_checksums_asset(&names_of_assets(&release.assets))
}

fn copy_text(value: &Option<String>) -> (r: Option<String>)
    ensures
        crate::text::opt_text(r) == crate::text::opt_text(*value),
{
    match value {
        Some(v) => Some(v.clone()),
        None => None,
    }
}

/// What a check for an update reports of a release: the version that it
/// names, whether it is an update, and its installer and list of
/// checksums, where it has them. `expected_installer_sha256` is what the
/// list of checksums gave for the installer. A draft is refused.
pub fn update_info(
    current_version: &str,
    repo_slug: &str,
    release: &Release,
    expected_installer_sha256: Option<String>,
) -> (r: Result<AppUpdateInfo, String>)
    ensures
        r is Err <==> release.draft,
        r matches Err(e) ==> e@ == draft_message(),
        r matches Ok(info) ==> {
            &&& info.current_version@ == current_version@
            &&& info.latest_version@ == version_text(release.tag_name@)
            &&& info.has_update == is_update(
                current_version@,
                release.tag_name@,
                release.prerelease,
            )
            &&& info.repo_slug@ == repo_slug@
            &&& crate::text::opt_text(info.release_name) == crate::text::opt_text(release.name)
            &&& crate::text::opt_text(info.release_notes) == crate::text::opt_text(release.body)
            &&& crate::text::opt_text(info.published_at) == crate::text::opt_text(
                release.published_at,
            )
            &&& info.html_url@ == release.html_url@
            &&& info.expected_installer_sha256 == expected_installer_sha256
            &&& (info.asset_name is Some <==> info.asset_download_url is Some)
            &&& (info.asset_name is None <==> forall|j: int|
                0 <= j < release.assets@.len() ==> installer_rank(
                    #[trigger] release_asset_names(release.assets@)[j],
                ) == 0)
            &&& (info.asset_name matches Some(name) ==> exists|i: int|
                #![trigger release.assets@[i]]
                is_installer_choice(release_asset_names(release.assets@), i) && name@
                    == release.assets@[i].name@ && info.asset_download_url->Some_0@
                    == release.assets@[i].browser_download_url@)
            &&& (info.checksum_asset_name is Some <==> info.checksum_asset_download_url is Some)
            &&& (info.checksum_asset_name is None <==> forall|j: int|
                0 <= j < release.assets@.len() ==> !is_checksums_name(
                    #[trigger] release_asset_names(release.assets@)[j],
                ))
            &&& (info.checksum_asset_name matches Some(name) ==> exists|i: int|
                #![trigger release.assets@[i]]
                0 <= i < release.assets@.len() && is_checksums_name(name@) && name@
                    == release.assets@[i].name@ && info.checksum_asset_download_url->Some_0@
                    == release.assets@[i].browser_download_url@)
        },
{
    if release.draft {
        return Err(String::from_str("Latest GitHub release is still marked as draft."));
    }
    let installer = release_installer(release);
    let checksums = release_checksums(release);
    let (asset_name, asset_download_url) = match installer {
        Some(i) => {
            assert(release_asset_names(release.assets@)[i as int] == release.assets@[i as int].name@);
            (
                Some(release.assets[i].name.clone()),
                Some(release.assets[i].browser_download_url.clone()),
            )
        },
        None => (None, None),
    };
    let (checksum_asset_name, checksum_asset_download_url) = match checksums {
        Some(i) => {
            assert(release_asset_names(release.assets@)[i as int] == release.assets@[i as int].name@);
            (
                Some(release.assets[i].name.clone()),
                Some(release.assets[i].browser_download_url.clone()),
            )
        },
        None => (None, None),
    };
    Ok(
        AppUpdateInfo {
            current_version: string_of(&chars_of(current_version)),
            latest_version: latest_version(release.tag_name.as_str()),
            has_update: has_update(current_version, release.tag_name.as_str(), release.prerelease),
            repo_slug: string_of(&chars_of(repo_slug)),
            release_name: copy_text(&release.name),
            release_notes: copy_text(&release.body),
            published_at: copy_text(&release.published_at),
            html_url: release.html_url.clone(),
            asset_name,
            asset_download_url,
            checksum_asset_name,
            checksum_asset_download_url,
            expected_installer_sha256,
        },
    )
}

// ---------------------------------------------------------------------------
// The download of an installer
// ---------------------------------------------------------------------------

/// Why an installer is not downloaded.
#[derive(Debug, Clone, Copy, PartialEq, Eq, Structural)]
pub enum DownloadError {
    /// The address does not begin with `https://`.
    NotHttps,
    /// No checksum is given that the installer could be held against.
    MissingChecksum,
}

impl DownloadError {
    /// The message for the user.
    pub fn message(&self) -> (s: String)
        ensures
            s@ == match self {
                DownloadError::NotHttps => "Update URL must use HTTPS."@,
                DownloadError::MissingChecksum => "Missing expected SHA-256 checksum for installer."@,
            },
    {
        match self {
            DownloadError::NotHttps => String::from_str("Update URL must use HTTPS."),
            DownloadError::MissingChecksum => String::from_str(
                "Missing expected SHA-256 checksum for installer.",
            ),
        }
    }
}

/// What is downloaded, under which name, and what it is held against.
#[derive(Debug, Clone)]
pub struct DownloadPlan {
    /// The address, trimmed.
    pub url: String,
    /// The name under which the installer is stored.
    pub file_name: String,
    /// Whether the installer runs without questions.
    pub silent_install: bool,
    /// The checksum that the installer must have.
    pub expected_sha256: String,
}

/// The name that an installer is given before it is cleaned: the name
/// of the asset or, where none is given, what stands behind the last
/// slash of the address; trimmed.
pub open spec fn suggested_name(url: Seq<char>, asset_name: Option<Seq<char>>) -> Seq<char> {
    match asset_name {
        Some(name) => trimmed(name),
        None => trimmed(split_fields(trimmed(url), seq!['/']).last()),
    }
}

/// The checksum that is given, where it is one.
pub open spec fn given_checksum(expected: Option<Seq<char>>) -> Option<Seq<char>> {
    match expected {
        Some(e) => sha256_hex_of(e),
        None => None,
    }
}

/// The plan for the download of an installer. An address that is not
/// `https` is refused, and so is a download without a checksum.
pub fn download_plan(
    download_url: &str,
    asset_name: Option<&str>,
    silent_install: Option<bool>,
    expected_sha256: Option<&str>,
) -> (r: Result<DownloadPlan, DownloadError>)
    ensures
        match r {
            Err(e) => if !has_prefix(trimmed(download_url@), "https://"@) {
                e == DownloadError::NotHttps
            } else {
                e == DownloadError::MissingChecksum && given_checksum(
                    crate::text::opt_str_text(expected_sha256),
                ) is None
            },
            Ok(plan) => {
                &&& has_prefix(trimmed(download_url@), "https://"@)
                &&& plan.url@ == trimmed(download_url@)
                &&& plan.file_name@ == installer_file_name(
                    suggested_name(download_url@, crate::text::opt_str_text(asset_name)),
                )
                &&& plan.silent_install == match silent_install {
                    Some(s) => s,
                    None => true,
                }
                &&& Some(plan.expected_sha256@) == given_checksum(
                    crate::text::opt_str_text(expected_sha256),
                )
            },
        },
{
    let url = trim(&chars_of(download_url));
    if !crate::text::starts_with(&url, &chars_of("https://")) {
        return Err(DownloadError::NotHttps);
    }
    let suggested = match asset_name {
        Some(name) => trim(&chars_of(name)),
        None => {
            let parts = split_chars(&url, &seps_of('/', None));
            assert(views(parts@).last() == parts@[parts@.len() - 1]@);
            trim(&parts[parts.len() - 1])
        },
    };
    let file_name = sanitize_filename(string_of(&suggested).as_str());
    let expected = match expected_sha256 {
        Some(e) => normalize_sha256_hex(e),
        None => None,
    };
    match expected {
        Some(expected_sha256) => Ok(
            DownloadPlan {
                url: string_of(&url),
                file_name,
                silent_install: match silent_install {
                    Some(s) => s,
                    None => true,
                },
                expected_sha256,
            },
        ),
        None => Err(DownloadError::MissingChecksum),
    }
}

/// The message for a download that brought nothing.
pub open spec fn empty_download_message() -> Seq<char> {
    "installer download was empty"@
}

/// What a download comes to: refused where it is empty, else held against its checksum.
pub open spec fn download_verdict(bytes: Seq<u8>, expected_sha256: Seq<char>) -> Result<
    Seq<char>,
    Seq<char>,
> {
    if bytes.len() == 0 {
        Err(empty_download_message())
    } else {
        checksum_verdict(hex_of(sha256(bytes)), expected_sha256)
    }
}

/// Holds a downloaded installer against its plan: its checksum where
/// that is the expected one; a message where the download is empty or the
/// checksum is another.
pub fn verify_download(bytes: &Vec<u8>, plan: &DownloadPlan) -> (r: Result<String, String>)
    ensures
        match r {
            Ok(s) => Ok::<Seq<char>, Seq<char>>(s@),
            Err(e) => Err(e@),
        } == download_verdict(bytes@, plan.expected_sha256@),
{
    if bytes.len() == 0 {
        return Err(String::from_str("installer download was empty"));
    }
    verify_installer(bytes, plan.expected_sha256.as_str())
}

/// What the status of a signature comes to: the status where it says
/// `Valid` in whatever case, else the message that names it. The status is trimmed.
pub open spec fn signature_verdict_of(status: Seq<char>) -> Result<Seq<char>, Seq<char>> {
    if crate::text::same_ignoring_case(trimmed(status), "Valid"@) {
        Ok(trimmed(status))
    } else {
        Err("installer signature status is '"@ + trimmed(status) + "', expected 'Valid'"@)
    }
}

/// What the status of the signature of an installer comes to.
pub fn signature_verdict(status: &str) -> (r: Result<String, String>)
    ensures
        match r {
            Ok(s) => Ok::<Seq<char>, Seq<char>>(s@),
            Err(e) => Err(e@),
        } == signature_verdict_of(status@),
{
    let t = trim(&chars_of(status));
    if crate::text::eq_ignore_ascii_case(&t, &chars_of("Valid")) {
        Ok(string_of(&t))
    } else {
        let mut m: Vec<char> = Vec::new();
        push_str(&mut m, "installer signature status is '");
        push_chars(&mut m, &t);
        push_str(&mut m, "', expected 'Valid'");
        Err(string_of(&m))
    }
}

/// What is said after an installer was launched.
pub open spec fn launched_message(sha256_hex: Seq<char>, install_path: Seq<char>) -> Seq<char> {
    "Installer verified (sha256 "@ + sha256_hex + ") and launched from '"@ + install_path + "'."@
}

/// What is said after an installer was launched.
pub fn installer_launched_message(sha256_hex: &str, install_path: &str) -> (m: String)
    ensures
        m@ == launched_message(sha256_hex@, install_path@),
{
    let mut out: Vec<char> = Vec::new();
    push_str(&mut out, "Installer verified (sha256 ");
    push_str(&mut out, sha256_hex);
    push_str(&mut out, ") and launched from '");
    push_str(&mut out, install_path);
    push_str(&mut out, "'.");
    string_of(&out)
}

} // verus!
