//! What is saved of sessions and encounters, where it lives, and the naming
//! rules for their folders and files. Reading and writing the files is the
//! application's part; the names, orders and conversions are here.

use vstd::prelude::*;

use std::path::{Path, PathBuf};

use crate::models::creature::{Creature, Creatures};
use crate::text::{
    char_lowercase, char_uppercase, chars_less, digit_char, chars_lt, chars_of, decimal, joined, lemma_chars_lt_irreflexive,
    lemma_chars_lt_total, lemma_chars_lt_transitive, lowercase_char, lowercase_of, push_char, push_chars,
    push_decimal, string_from_chars, to_lowercase, trim, trim_chars, uppercase_char,
};

use crate::order::{lemma_insert_stable_at, ordered_by, stable_sorted, strict_order};

verus! {

broadcast use {vstd::seq_lib::group_to_multiset_ensures, vstd::multiset::group_multiset_axioms};

#[verifier::external_type_specification]
#[verifier::external_body]
pub struct ExPathBuf(PathBuf);

#[verifier::external_type_specification]
#[verifier::external_body]
pub struct ExPath(Path);

/// `PathBuf::clone` gives the same path.
pub assume_specification[ <PathBuf as Clone>::clone ](path: &PathBuf) -> (copy: PathBuf)
    ensures
        copy == *path,
;

/// `PathBuf::new` makes an empty path; nothing more is stated of it.
pub assume_specification[ PathBuf::new ]() -> PathBuf;

/// The path `Path::join` makes of `base` and `part`.
pub uninterp spec fn path_joined(base: &Path, part: Seq<char>) -> PathBuf;

/// Calls `Path::join`; the result is named `path_joined`.
#[verifier::external_body]
fn join_path(base: &Path, part: &str) -> (path: PathBuf)
    ensures
        path == path_joined(base, part@),
{
    base.join(part)
}

/// A session's saved description.
#[derive(Clone, Debug, Eq, PartialEq)]
pub struct SessionManifest {
    pub date: String,
    pub name: String,
}

/// A session folder found on disk.
#[derive(Clone, Debug, Eq, PartialEq)]
pub struct SessionInfo {
    pub dir_name: String,
    pub path: PathBuf,
    pub date: String,
    pub name: String,
}

/// An encounter file found in a session folder.
#[derive(Clone, Debug, Eq, PartialEq)]
pub struct EncounterInfo {
    pub file_name: String,
    pub path: PathBuf,
    pub name: String,
}

/// The creatures every new encounter starts with.
#[derive(Clone, Debug, Eq, PartialEq)]
pub struct CampaignConfig {
    pub creatures: Vec<CampaignCreature>,
}

impl Default for CampaignConfig {
    fn default() -> (config: Self)
        ensures
            config.creatures@.len() == 0,
    {
        CampaignConfig { creatures: Vec::new() }
    }
}

/// A campaign creature: written out, or taken from D&D Beyond.
#[derive(Clone, Debug, Eq, PartialEq)]
pub enum CampaignCreature {
    Preset(CampaignCreaturePreset),
    DndBeyond(DndBeyondCharacterPreset),
}

/// A campaign creature written out in the configuration.
#[derive(Clone, Debug, Eq, PartialEq)]
pub struct CampaignCreaturePreset {
    pub name: String,
    pub health: i32,
    pub ac: Option<i32>,
    pub description: String,
}

/// A campaign creature fetched from D&D Beyond.
#[derive(Clone, Debug, Eq, PartialEq)]
pub struct DndBeyondCharacterPreset {
    pub dnd_beyond_character_id: u64,
}

/// A saved encounter.
#[derive(Clone, Debug, Eq, PartialEq)]
pub struct PersistedEncounter {
    pub name: String,
    pub creatures: Vec<Creature>,
}

impl Default for PersistedEncounter {
    fn default() -> (encounter: Self)
        ensures
            encounter.name@ == Seq::<char>::empty(),
            encounter.creatures@.len() == 0,
    {
        PersistedEncounter { name: String::new(), creatures: Vec::new() }
    }
}

/// An encounter to write into a session folder.
#[derive(Clone, Debug, Eq, PartialEq)]
pub struct SaveRequest {
    pub session_dir: String,
    pub encounter_file: String,
    pub encounter: PersistedEncounter,
}

/// The folder holding the session folders.
pub fn sessions_root(data_dir: &Path) -> (root: PathBuf)
    ensures
        root == path_joined(data_dir, "sessions"@),
{
    join_path(data_dir, "sessions")
}

/// The campaign configuration file.
pub fn campaign_config_path(data_dir: &Path) -> (path: PathBuf)
    ensures
        path == path_joined(data_dir, "campaign.ron"@),
{
    join_path(data_dir, "campaign.ron")
}

/// The encounter to save: its name and a copy of the creatures in display
/// order.
pub fn encounter_from_creatures(name: String, creatures: &Creatures) -> (encounter: PersistedEncounter)
    ensures
        encounter.name == name,
        encounter.creatures@ == creatures@,
{
    PersistedEncounter { name, creatures: creatures.to_vec() }
}

/// The creature a preset describes: no initiative, full health.
pub open spec fn preset_creature(preset: CampaignCreaturePreset) -> Creature {
    Creature {
        id: crate::models::creature::CreatureId(0),
        name: preset.name,
        initiative: None,
        ac: preset.ac,
        description: preset.description,
        health: preset.health,
        max_health: preset.health,
    }
}

impl From<CampaignCreaturePreset> for Creature {
    fn from(preset: CampaignCreaturePreset) -> (creature: Self) {
        Creature {
            id: crate::models::creature::CreatureId(0),
            name: preset.name,
            initiative: None,
            ac: preset.ac,
            description: preset.description,
            health: preset.health,
            max_health: preset.health,
        }
    }
}

impl vstd::std_specs::convert::FromSpecImpl<CampaignCreaturePreset> for Creature {
    open spec fn obeys_from_spec() -> bool {
        true
    }

    open spec fn from_spec(preset: CampaignCreaturePreset) -> Creature {
        preset_creature(preset)
    }
}

/// `"<label> is required"`
pub open spec fn required_error(label: Seq<char>) -> Seq<char> {
    label + " is required"@
}

/// The name without surrounding whitespace, or the error when nothing is
/// left.
pub fn validate_name(name: &str, label: &str) -> (r: Result<String, String>)
    ensures
        match r {
            Ok(n) => trim_chars(name@).len() > 0 && n@ == trim_chars(name@),
            Err(e) => trim_chars(name@).len() == 0 && e@ == required_error(label@),
        },
{
    let trimmed = trim(name);
    if trimmed.as_str().is_empty() {
        proof {
            reveal_strlit(" is required");
        }
        let mut message = label.to_owned();
        message.append(" is required");
        return Err(message);
    }
    Ok(trimmed)
}

/// Whether `c` is an ASCII letter or digit.
pub open spec fn is_ascii_alnum(c: char) -> bool {
    ('a' <= c && c <= 'z') || ('A' <= c && c <= 'Z') || ('0' <= c && c <= '9')
}

/// The characters of `s`, each replaced by its lowercase mapping.
pub open spec fn lowered(s: Seq<char>) -> Seq<char>
    decreases s.len(),
{
    if s.len() == 0 {
        Seq::empty()
    } else {
        lowered(s.drop_last()) + char_lowercase(s.last())
    }
}

/// The slug of `s` before its ends are trimmed: ASCII letters and digits
/// kept, every run of other characters replaced by one `-`; with whether the
/// last character written was a `-` for such a run.
pub open spec fn slug_body(s: Seq<char>) -> (Seq<char>, bool)
    decreases s.len(),
{
    if s.len() == 0 {
        (Seq::empty(), false)
    } else {
        let (prev, sep) = slug_body(s.drop_last());
        let c = s.last();
        if is_ascii_alnum(c) {
            (prev.push(c), false)
        } else if !sep {
            (prev.push('-'), true)
        } else {
            (prev, true)
        }
    }
}

/// `s` without leading `-`.
pub open spec fn trim_start_dashes(s: Seq<char>) -> Seq<char>
    decreases s.len(),
{
    if s.len() > 0 && s[0] == '-' {
        trim_start_dashes(s.drop_first())
    } else {
        s
    }
}

/// `s` without trailing `-`.
pub open spec fn trim_end_dashes(s: Seq<char>) -> Seq<char>
    decreases s.len(),
{
    if s.len() > 0 && s.last() == '-' {
        trim_end_dashes(s.drop_last())
    } else {
        s
    }
}

/// The slug of a name: trimmed, lowercased, ASCII letters and digits kept,
/// other runs made one `-`, no `-` at either end; `untitled` when nothing is
/// left.
pub open spec fn slug_of(s: Seq<char>) -> Seq<char> {
    let t = trim_end_dashes(trim_start_dashes(slug_body(lowered(trim_chars(s))).0));
    if t.len() == 0 {
        "untitled"@
    } else {
        t
    }
}

/// The slug of a name, for folder and file names.
pub fn slugify(input: &str) -> (slug: String)
    ensures
        slug@ == slug_of(input@),
{
    let trimmed = chars_of(trim(input).as_str());
    let ghost t = trimmed@;
    let mut body: Vec<char> = Vec::new();
    let mut sep = false;
    let mut i: usize = 0;
    while i < trimmed.len()
        invariant
            i <= trimmed.len(),
            t == trimmed@,
            (body@, sep) == slug_body(lowered(t.take(i as int))),
        decreases trimmed.len() - i,
    {
        let lower = lowercase_char(trimmed[i]);
        let ghost before = lowered(t.take(i as int));
        let mut j: usize = 0;
        assert(before + lower@.take(0) =~= before);
        while j < lower.len()
            invariant
                j <= lower.len(),
                (body@, sep) == slug_body(before + lower@.take(j as int)),
            decreases lower.len() - j,
        {
            let c = lower[j];
            assert((before + lower@.take(j + 1)).drop_last() =~= before + lower@.take(j as int));
            assert((before + lower@.take(j + 1)).last() == c);
            if ('a' <= c && c <= 'z') || ('A' <= c && c <= 'Z') || ('0' <= c && c <= '9') {
                body.push(c);
                sep = false;
            } else if !sep {
                body.push('-');
                sep = true;
            }
            j = j + 1;
        }
        assert(lower@.take(j as int) =~= lower@);
        assert(t.take(i + 1).drop_last() =~= t.take(i as int));
        i = i + 1;
    }
    assert(t.take(i as int) =~= t);
    let mut lo: usize = 0;
    assert(body@.skip(0) =~= body@);
    while lo < body.len() && body[lo] == '-'
        invariant
            lo <= body.len(),
            trim_start_dashes(body@) == trim_start_dashes(body@.skip(lo as int)),
        decreases body.len() - lo,
    {
        assert(body@.skip(lo as int).drop_first() =~= body@.skip(lo + 1));
        lo = lo + 1;
    }
    let ghost front = body@.skip(lo as int);
    let mut hi: usize = body.len();
    assert(front =~= body@.subrange(lo as int, hi as int));
    while hi > lo && body[hi - 1] == '-'
        invariant
            lo <= hi <= body.len(),
            front == body@.skip(lo as int),
            trim_end_dashes(front) == trim_end_dashes(body@.subrange(lo as int, hi as int)),
        decreases hi - lo,
    {
        assert(body@.subrange(lo as int, hi as int).drop_last() =~= body@.subrange(lo as int, hi - 1));
        hi = hi - 1;
    }
    if hi == lo {
        proof {
            reveal_strlit("untitled");
            assert(body@.subrange(lo as int, hi as int).len() == 0);
        }
        return String::from_str("untitled");
    }
    crate::text::string_from_chars(&body, lo, hi)
}

/// Every character is an ASCII letter or digit, or `-`.
pub open spec fn slug_alphabet(t: Seq<char>) -> bool {
    forall|i: int| 0 <= i < t.len() ==> is_ascii_alnum(#[trigger] t[i]) || t[i] == '-'
}

/// No `-` follows another.
pub open spec fn no_double_dash(t: Seq<char>) -> bool {
    forall|i: int| 0 <= i < t.len() - 1 && #[trigger] t[i] == '-' ==> t[i + 1] != '-'
}

proof fn lemma_slug_body_shape(s: Seq<char>)
    ensures
        slug_alphabet(slug_body(s).0),
        no_double_dash(slug_body(s).0),
        slug_body(s).1 <==> (slug_body(s).0.len() > 0 && slug_body(s).0.last() == '-'),
    decreases s.len(),
{
    if s.len() > 0 {
        lemma_slug_body_shape(s.drop_last());
        let (prev, sep) = slug_body(s.drop_last());
        let b = slug_body(s).0;
        assert forall|i: int| 0 <= i < b.len() implies is_ascii_alnum(#[trigger] b[i]) || b[i] == '-' by {
            if i < prev.len() {
                assert(b[i] == prev[i]);
            }
        }
        assert forall|i: int| 0 <= i < b.len() - 1 && #[trigger] b[i] == '-' implies b[i + 1] != '-' by {
            if i + 1 < prev.len() {
                assert(b[i] == prev[i] && b[i + 1] == prev[i + 1]);
            } else if b.len() > prev.len() {
                assert(b[i] == prev[i]);
                assert(prev.last() == '-');
            }
        }
    }
}

proof fn lemma_trim_start_dashes_is_suffix(s: Seq<char>)
    ensures
        exists|k: int| 0 <= k <= s.len() && trim_start_dashes(s) == s.skip(k),
        trim_start_dashes(s).len() > 0 ==> trim_start_dashes(s)[0] != '-',
    decreases s.len(),
{
    if s.len() > 0 && s[0] == '-' {
        lemma_trim_start_dashes_is_suffix(s.drop_first());
        let k = choose|k: int| 0 <= k <= s.drop_first().len() && trim_start_dashes(s.drop_first()) == s.drop_first().skip(k);
        assert(s.drop_first().skip(k) =~= s.skip(k + 1));
    } else {
        assert(s.skip(0) =~= s);
    }
}

proof fn lemma_trim_end_dashes_is_prefix(s: Seq<char>)
    ensures
        exists|m: int| 0 <= m <= s.len() && trim_end_dashes(s) == s.take(m),
        trim_end_dashes(s).len() > 0 ==> trim_end_dashes(s).last() != '-',
    decreases s.len(),
{
    if s.len() > 0 && s.last() == '-' {
        lemma_trim_end_dashes_is_prefix(s.drop_last());
        let m = choose|m: int| 0 <= m <= s.drop_last().len() && trim_end_dashes(s.drop_last()) == s.drop_last().take(m);
        assert(s.drop_last().take(m) =~= s.take(m));
    } else {
        assert(s.take(s.len() as int) =~= s);
    }
}

/// A slug is safe as a folder or file name: never empty, made of ASCII
/// letters, digits and `-`, with no `-` at either end and never two in a
/// row.
pub proof fn lemma_slug_shape(name: Seq<char>)
    ensures
        slug_of(name).len() > 0,
        slug_alphabet(slug_of(name)),
        no_double_dash(slug_of(name)),
        slug_of(name)[0] != '-',
        slug_of(name).last() != '-',
{
    let b = slug_body(lowered(trim_chars(name))).0;
    lemma_slug_body_shape(lowered(trim_chars(name)));
    let front = trim_start_dashes(b);
    lemma_trim_start_dashes_is_suffix(b);
    let k = choose|k: int| 0 <= k <= b.len() && front == b.skip(k);
    let t = trim_end_dashes(front);
    lemma_trim_end_dashes_is_prefix(front);
    let m = choose|m: int| 0 <= m <= front.len() && t == front.take(m);
    assert forall|i: int| 0 <= i < t.len() implies is_ascii_alnum(#[trigger] t[i]) || t[i] == '-' by {
        assert(t[i] == b[k + i]);
    }
    assert forall|i: int| 0 <= i < t.len() - 1 && #[trigger] t[i] == '-' implies t[i + 1] != '-' by {
        assert(t[i] == b[k + i] && t[i + 1] == b[k + i + 1]);
    }
    if t.len() > 0 {
        assert(t[0] == front[0]);
    } else {
        reveal_strlit("untitled");
        let u = "untitled"@;
        assert forall|i: int| 0 <= i < u.len() implies is_ascii_alnum(#[trigger] u[i]) || u[i] == '-' by {}
    }
}

/// Whether `c` separates the words of a slug.
pub open spec fn is_word_separator(c: char) -> bool {
    c == '-' || c == '_'
}

/// The finished words of `s` and the word being read.
pub open spec fn split_words(s: Seq<char>) -> (Seq<Seq<char>>, Seq<char>)
    decreases s.len(),
{
    if s.len() == 0 {
        (Seq::empty(), Seq::empty())
    } else {
        let (words, current) = split_words(s.drop_last());
        let c = s.last();
        if is_word_separator(c) {
            if current.len() > 0 {
                (words.push(current), Seq::empty())
            } else {
                (words, Seq::empty())
            }
        } else {
            (words, current.push(c))
        }
    }
}

/// The non-empty parts of `s` between `-` and `_`.
pub open spec fn slug_words(s: Seq<char>) -> Seq<Seq<char>> {
    let (words, current) = split_words(s);
    if current.len() > 0 {
        words.push(current)
    } else {
        words
    }
}

/// A word with its first character uppercased.
pub open spec fn capitalized(word: Seq<char>) -> Seq<char> {
    if word.len() == 0 {
        word
    } else {
        char_uppercase(word[0]) + word.drop_first()
    }
}

/// A slug made readable: its words capitalized and joined with spaces.
pub open spec fn deslug_of(s: Seq<char>) -> Seq<char> {
    joined(slug_words(s).map_values(|w: Seq<char>| capitalized(w)), " "@)
}

proof fn lemma_joined_push(words: Seq<Seq<char>>, w: Seq<char>)
    ensures
        joined(words.push(w).map_values(|x: Seq<char>| capitalized(x)), " "@) == if words.len() == 0 {
            capitalized(w)
        } else {
            joined(words.map_values(|x: Seq<char>| capitalized(x)), " "@) + " "@ + capitalized(w)
        },
{
    let m = words.push(w).map_values(|x: Seq<char>| capitalized(x));
    assert(m.drop_last() =~= words.map_values(|x: Seq<char>| capitalized(x)));
    if words.len() == 0 {
        assert(m.len() == 1);
    }
}

/// Appends `word` with its first character uppercased.
fn push_capitalized(out: &mut String, word: &Vec<char>)
    requires
        word@.len() > 0,
    ensures
        final(out)@ == old(out)@ + capitalized(word@),
{
    let first = uppercase_char(word[0]);
    push_chars(out, &first);
    let mut i: usize = 1;
    while i < word.len()
        invariant
            1 <= i <= word.len(),
            out@ == old(out)@ + char_uppercase(word@[0]) + word@.subrange(1, i as int),
        decreases word.len() - i,
    {
        push_char(out, word[i]);
        assert(word@.subrange(1, i + 1) =~= word@.subrange(1, i as int).push(word@[i as int]));
        i = i + 1;
    }
    assert(word@.subrange(1, i as int) =~= word@.drop_first());
    assert(old(out)@ + char_uppercase(word@[0]) + word@.drop_first() =~= old(out)@ + capitalized(word@));
}

/// A slug made readable: the parts between `-` and `_`, each with its first
/// letter uppercased, joined with spaces.
pub fn deslugify(input: &str) -> (text: String)
    ensures
        text@ == deslug_of(input@),
{
    let v = chars_of(input);
    let mut out = String::new();
    let mut count: usize = 0;
    let mut current: Vec<char> = Vec::new();
    let ghost mut words: Seq<Seq<char>> = Seq::empty();
    let mut i: usize = 0;
    while i < v.len()
        invariant
            i <= v.len(),
            (words, current@) == split_words(v@.take(i as int)),
            out@ == joined(words.map_values(|x: Seq<char>| capitalized(x)), " "@),
            count == words.len(),
            count <= i,
        decreases v.len() - i,
    {
        let c = v[i];
        assert(v@.take(i + 1).drop_last() =~= v@.take(i as int));
        assert(v@.take(i + 1).last() == c);
        if c == '-' || c == '_' {
            if current.len() > 0 {
                proof {
                    lemma_joined_push(words, current@);
                    reveal_strlit(" ");
                }
                if count > 0 {
                    push_char(&mut out, ' ');
                }
                push_capitalized(&mut out, &current);
                proof {
                    words = words.push(current@);
                }
                count = count + 1;
            }
            current = Vec::new();
        } else {
            current.push(c);
        }
        i = i + 1;
    }
    assert(v@.take(i as int) =~= v@);
    if current.len() > 0 {
        proof {
            lemma_joined_push(words, current@);
            reveal_strlit(" ");
        }
        if count > 0 {
            push_char(&mut out, ' ');
        }
        push_capitalized(&mut out, &current);
    }
    out
}

/// The index of the first `c` in `s`, or its length when there is none.
pub open spec fn first_index_of_char(s: Seq<char>, c: char) -> int
    decreases s.len(),
{
    if s.len() == 0 {
        0
    } else if s[0] == c {
        0
    } else {
        1 + first_index_of_char(s.drop_first(), c)
    }
}

proof fn lemma_first_index_of_char(s: Seq<char>, c: char)
    ensures
        0 <= first_index_of_char(s, c) <= s.len(),
        first_index_of_char(s, c) < s.len() ==> s[first_index_of_char(s, c)] == c,
        forall|j: int| 0 <= j < first_index_of_char(s, c) ==> s[j] != c,
    decreases s.len(),
{
    if s.len() > 0 && s[0] != c {
        lemma_first_index_of_char(s.drop_first(), c);
        assert forall|j: int| 0 <= j < first_index_of_char(s, c) implies s[j] != c by {
            if j > 0 {
                assert(s[j] == s.drop_first()[j - 1]);
            }
        }
    }
}

/// The manifest a session folder's name stands for: the date before the
/// first `_` and the readable name after it, or an unknown date and the whole
/// name made readable.
pub open spec fn dir_manifest(dir_name: Seq<char>) -> (Seq<char>, Seq<char>) {
    let i = first_index_of_char(dir_name, '_');
    if i < dir_name.len() {
        (dir_name.take(i), deslug_of(dir_name.skip(i + 1)))
    } else {
        ("unknown-date"@, deslug_of(dir_name))
    }
}

/// The manifest of a session folder that has none of its own.
pub fn manifest_from_dir(dir_name: &str) -> (manifest: SessionManifest)
    ensures
        (manifest.date@, manifest.name@) == dir_manifest(dir_name@),
{
    let v = chars_of(dir_name);
    let mut i: usize = 0;
    while i < v.len() && v[i] != '_'
        invariant
            i <= v.len(),
            forall|j: int| 0 <= j < i ==> v@[j] != '_',
        decreases v.len() - i,
    {
        i = i + 1;
    }
    proof {
        lemma_first_index_of_char(v@, '_');
        let k = first_index_of_char(v@, '_');
        if k < i {
            assert(v@[k] == '_');
        }
        if i < k {
            assert(v@[i as int] == '_');
        }
    }
    if i < v.len() {
        let date = crate::text::string_from_chars(&v, 0, i);
        let rest = crate::text::string_from_chars(&v, i + 1, v.len());
        assert(v@.subrange(0, i as int) =~= v@.take(i as int));
        assert(v@.subrange(i + 1, v.len() as int) =~= v@.skip(i + 1));
        SessionManifest { date, name: deslugify(rest.as_str()) }
    } else {
        proof {
            reveal_strlit("unknown-date");
        }
        SessionManifest { date: String::from_str("unknown-date"), name: deslugify(dir_name) }
    }
}

/// The start of a new session folder's name: the date, `_`, and the slug of
/// the session's name.
pub fn session_dir_base(date: &str, name: &str) -> (base: String)
    ensures
        base@ == date@ + seq!['_'] + slug_of(name@),
{
    let mut base = date.to_owned();
    push_char(&mut base, '_');
    let slug = slugify(name);
    base.append(slug.as_str());
    base
}


/// The index of the last `c` in `s`, or `-1` when there is none.
pub open spec fn last_index_of_char(s: Seq<char>, c: char) -> int
    decreases s.len(),
{
    if s.len() == 0 {
        -1
    } else if s.last() == c {
        s.len() - 1
    } else {
        last_index_of_char(s.drop_last(), c)
    }
}

proof fn lemma_last_index_of_char(s: Seq<char>, c: char)
    ensures
        -1 <= last_index_of_char(s, c) < s.len(),
        last_index_of_char(s, c) >= 0 ==> s[last_index_of_char(s, c)] == c,
        forall|j: int| last_index_of_char(s, c) < j < s.len() ==> s[j] != c,
    decreases s.len(),
{
    if s.len() > 0 && s.last() != c {
        lemma_last_index_of_char(s.drop_last(), c);
        assert forall|j: int| last_index_of_char(s, c) < j < s.len() implies s[j] != c by {
            if j < s.len() - 1 {
                assert(s[j] == s.drop_last()[j]);
            }
        }
    }
}

/// The name tried with `suffix` when `base` is taken: `-<suffix>` goes
/// before the extension (after the last `.`), or at the end when there is no
/// `.`.
pub open spec fn name_candidate(base: Seq<char>, suffix: nat) -> Seq<char> {
    let i = last_index_of_char(base, '.');
    if i >= 0 {
        base.take(i) + seq!['-'] + decimal(suffix) + seq!['.'] + base.skip(i + 1)
    } else {
        base + seq!['-'] + decimal(suffix)
    }
}

/// Whether one of the names is `name`.
pub open spec fn name_listed(names: Seq<String>, name: Seq<char>) -> bool {
    names.map_values(|t: String| t@).contains(name)
}

/// `name` is the first free name for `base`: `base` itself when it is free,
/// else the candidate with the smallest suffix from 2 that is free.
pub open spec fn first_free_name(base: Seq<char>, taken: Seq<String>, name: Seq<char>) -> bool {
    if !name_listed(taken, base) {
        name == base
    } else {
        exists|n: nat|
            #![trigger name_candidate(base, n)]
            n >= 2 && name == name_candidate(base, n) && !name_listed(taken, name) && forall|k: nat|
                2 <= k < n ==> name_listed(taken, #[trigger] name_candidate(base, k))
    }
}

proof fn lemma_decimal_len(n: nat)
    ensures
        decimal(n).len() >= 1,
        n >= 10 ==> decimal(n).len() >= 2,
    decreases n,
{
    if n >= 10 {
        lemma_decimal_len(n / 10);
    }
}

proof fn lemma_digit_char_injective(a: nat, b: nat)
    requires
        a < 10,
        b < 10,
        digit_char(a) == digit_char(b),
    ensures
        a == b,
{
    assert(digit_char(a) as int == 48 + a);
    assert(digit_char(b) as int == 48 + b);
}

proof fn lemma_decimal_injective(a: nat, b: nat)
    requires
        decimal(a) == decimal(b),
    ensures
        a == b,
    decreases a,
{
    lemma_decimal_len(a);
    lemma_decimal_len(b);
    if a < 10 && b < 10 {
        assert(decimal(a)[0] == digit_char(a));
        assert(decimal(b)[0] == digit_char(b));
        lemma_digit_char_injective(a, b);
    } else if a >= 10 && b >= 10 {
        assert(decimal(a).drop_last() == decimal(b).drop_last());
        assert(decimal(a).drop_last() =~= decimal(a / 10));
        assert(decimal(b).drop_last() =~= decimal(b / 10));
        lemma_decimal_injective(a / 10, b / 10);
        assert(decimal(a).last() == digit_char(a % 10));
        assert(decimal(b).last() == digit_char(b % 10));
        lemma_digit_char_injective(a % 10, b % 10);
        assert(a == 10 * (a / 10) + a % 10);
        assert(b == 10 * (b / 10) + b % 10);
    } else if a < 10 {
        assert(decimal(a).len() == 1);
    } else {
        assert(decimal(b).len() == 1);
    }
}

proof fn lemma_candidate_injective(base: Seq<char>, a: nat, b: nat)
    requires
        name_candidate(base, a) == name_candidate(base, b),
    ensures
        a == b,
{
    let i = last_index_of_char(base, '.');
    lemma_last_index_of_char(base, '.');
    let (da, db) = (decimal(a), decimal(b));
    let (ca, cb) = (name_candidate(base, a), name_candidate(base, b));
    if i >= 0 {
        let stem = base.take(i);
        let ext = base.skip(i + 1);
        assert(ca.len() == stem.len() + 1 + da.len() + 1 + ext.len());
        assert(cb.len() == stem.len() + 1 + db.len() + 1 + ext.len());
        assert(da =~= ca.subrange(stem.len() + 1int, stem.len() + 1int + da.len()));
        assert(db =~= cb.subrange(stem.len() + 1int, stem.len() + 1int + db.len()));
    } else {
        assert(da =~= ca.skip(base.len() + 1int));
        assert(db =~= cb.skip(base.len() + 1int));
    }
    lemma_decimal_injective(a, b);
}

/// There are no more names `base-2`, `base-3`, ... all taken than there are
/// taken names.
proof fn lemma_taken_candidates_bounded(base: Seq<char>, taken: Seq<String>, n: int)
    requires
        n >= 0,
        forall|k: nat| 2 <= k < n + 2 ==> name_listed(taken, #[trigger] name_candidate(base, k)),
    ensures
        n <= taken.len(),
{
    let names = taken.map_values(|t: String| t@);
    let x = vstd::set_lib::set_int_range(2, n + 2);
    vstd::set_lib::lemma_int_range(2, n + 2);
    let f = |k: int| name_candidate(base, k as nat);
    assert(vstd::relations::injective_on(f, x)) by {
        assert forall|a: int, b: int| x.contains(a) && x.contains(b) && #[trigger] f(a) == #[trigger] f(b) implies a
            == b by {
            lemma_candidate_injective(base, a as nat, b as nat);
        }
    }
    let y = x.map(f);
    vstd::set_lib::lemma_map_size(x, y, f);
    assert(y.subset_of(names.to_set())) by {
        assert forall|c: Seq<char>| y.contains(c) implies names.to_set().contains(c) by {
            let k = choose|k: int| x.contains(k) && f(k) == c;
            assert(name_listed(taken, name_candidate(base, k as nat)));
        }
    }
    vstd::set_lib::lemma_len_subset(y, names.to_set());
    names.lemma_cardinality_of_set();
}

/// Whether one of the names equals `name`.
fn is_listed(names: &Vec<String>, name: &String) -> (listed: bool)
    ensures
        listed == name_listed(names@, name@),
{
    let ghost views = names@.map_values(|t: String| t@);
    let mut i: usize = 0;
    while i < names.len()
        invariant
            i <= names.len(),
            views == names@.map_values(|t: String| t@),
            forall|j: int| 0 <= j < i ==> views[j] != name@,
        decreases names.len() - i,
    {
        if names[i] == *name {
            assert(views[i as int] == name@);
            return true;
        }
        i = i + 1;
    }
    proof {
        if views.contains(name@) {
            let j = choose|j: int| 0 <= j < views.len() && views[j] == name@;
        }
    }
    false
}

/// The first free name for `base` among the `taken` names: `base` itself, or
/// `base` with `-2`, `-3`, ... put before its extension.
pub fn unique_name(base: &str, taken: &Vec<String>) -> (name: String)
    ensures
        first_free_name(base@, taken@, name@),
{
    let base_string = base.to_owned();
    if !is_listed(taken, &base_string) {
        return base_string;
    }
    let v = chars_of(base);
    let mut i: usize = v.len();
    while i > 0 && v[i - 1] != '.'
        invariant
            i <= v.len(),
            forall|j: int| i <= j < v.len() ==> v@[j] != '.',
        decreases i,
    {
        i = i - 1;
    }
    proof {
        lemma_last_index_of_char(v@, '.');
        let d = last_index_of_char(v@, '.');
        if d >= i {
            assert(v@[d] == '.');
        }
        if i > 0 && d < i - 1 {
            assert(v@[i - 1] == '.');
        }
        assert(last_index_of_char(v@, '.') == i - 1);
    }
    let stem = if i > 0 {
        crate::text::string_from_chars(&v, 0, i - 1)
    } else {
        base.to_owned()
    };
    let ext = if i > 0 {
        crate::text::string_from_chars(&v, i, v.len())
    } else {
        String::new()
    };
    let mut k: u128 = 0;
    while k <= taken.len() as u128
        invariant
            k <= taken.len() + 1,
            v@ == base@,
            name_listed(taken@, base@),
            i <= v.len(),
            last_index_of_char(base@, '.') == i - 1,
            i > 0 ==> stem@ == v@.subrange(0, i - 1),
            i == 0 ==> stem@ == base@,
            i > 0 ==> ext@ == v@.subrange(i as int, v.len() as int),
            forall|j: nat| 2 <= j < k + 2 ==> name_listed(taken@, #[trigger] name_candidate(base@, j)),
        decreases taken.len() + 1 - k,
    {
        let suffix: u128 = k + 2;
        let mut candidate = stem.clone();
        push_char(&mut candidate, '-');
        push_decimal(&mut candidate, suffix);
        if i > 0 {
            push_char(&mut candidate, '.');
            candidate.append(ext.as_str());
            assert(v@.subrange(0, i - 1) =~= v@.take(i - 1));
            assert(v@.subrange(i as int, v.len() as int) =~= v@.skip(i as int));
            assert(candidate@ =~= v@.take(i - 1) + seq!['-'] + decimal(suffix as nat) + seq!['.'] + v@.skip(
                i as int,
            ));
        } else {
            assert(candidate@ =~= base@ + seq!['-'] + decimal(suffix as nat));
        }
        assert(candidate@ == name_candidate(base@, suffix as nat));
        if !is_listed(taken, &candidate) {
            assert(forall|j: nat| 2 <= j < suffix ==> name_listed(taken@, #[trigger] name_candidate(base@, j)));
            return candidate;
        }
        k = k + 1;
    }
    proof {
        lemma_taken_candidates_bounded(base@, taken@, k as int);
    }
    base_string
}

/// The first free folder name for `base` among the `taken` ones.
pub fn unique_dir_name(base: &str, taken: &Vec<String>) -> (name: String)
    ensures
        first_free_name(base@, taken@, name@),
{
    unique_name(base, taken)
}

/// The first free file name for `base_stem` with `extension` among the
/// `taken` ones.
pub fn unique_file_name(base_stem: &str, extension: &str, taken: &Vec<String>) -> (name: String)
    ensures
        first_free_name(base_stem@ + seq!['.'] + extension@, taken@, name@),
{
    let mut base = base_stem.to_owned();
    push_char(&mut base, '.');
    base.append(extension);
    assert(base@ =~= base_stem@ + seq!['.'] + extension@);
    unique_name(base.as_str(), taken)
}


proof fn lemma_insert_ordered<A>(s: Seq<A>, p: int, x: A, before: spec_fn(A, A) -> bool)
    requires
        strict_order(before),
        ordered_by(s, before),
        0 <= p <= s.len(),
        forall|j: int| 0 <= j < p ==> !before(x, #[trigger] s[j]),
        p < s.len() ==> before(x, s[p]),
    ensures
        ordered_by(s.insert(p, x), before),
        s.insert(p, x).to_multiset() == s.to_multiset().insert(x),
{
    let t = s.insert(p, x);
    assert forall|i: int, j: int| 0 <= i < j < t.len() implies !before(#[trigger] t[j], #[trigger] t[i]) by {
        if i < p && j < p {
            assert(t[i] == s[i] && t[j] == s[j]);
        } else if i < p && j == p {
            assert(t[i] == s[i]);
        } else if i < p {
            assert(t[i] == s[i] && t[j] == s[j - 1]);
        } else if i == p {
            assert(t[j] == s[j - 1]);
            if before(s[j - 1], x) {
                assert(before(s[j - 1], s[p]));
                if j - 1 == p {
                    assert(!before(s[p], s[p]));
                }
            }
        } else {
            assert(t[i] == s[i - 1] && t[j] == s[j - 1]);
        }
    }
    let l = s.subrange(0, p);
    let r = s.subrange(p, s.len() as int);
    assert(s =~= l + r);
    assert(t =~= l.push(x) + r);
    vstd::seq_lib::lemma_multiset_commutative(l.push(x), r);
    vstd::seq_lib::lemma_multiset_commutative(l, r);
}

proof fn lemma_first_multiset<A>(s: Seq<A>)
    requires
        s.len() > 0,
    ensures
        s.to_multiset() == s.drop_first().to_multiset().insert(s[0]),
{
    assert(s =~= seq![s[0]] + s.drop_first());
    vstd::seq_lib::lemma_multiset_commutative(seq![s[0]], s.drop_first());
    assert(seq![s[0]] =~= Seq::<A>::empty().push(s[0]));
}

/// Session listing order: the latest date first, then the name ignoring
/// case, then the folder name.
pub open spec fn session_before(a: SessionInfo, b: SessionInfo) -> bool {
    if a.date@ != b.date@ {
        chars_lt(b.date@, a.date@)
    } else if lowercase_of(a.name@) != lowercase_of(b.name@) {
        chars_lt(lowercase_of(a.name@), lowercase_of(b.name@))
    } else {
        chars_lt(a.dir_name@, b.dir_name@)
    }
}

/// Encounter listing order: the name ignoring case, then the file name.
pub open spec fn encounter_before(a: EncounterInfo, b: EncounterInfo) -> bool {
    if lowercase_of(a.name@) != lowercase_of(b.name@) {
        chars_lt(lowercase_of(a.name@), lowercase_of(b.name@))
    } else {
        chars_lt(a.file_name@, b.file_name@)
    }
}

proof fn lemma_chars_lt_order(a: Seq<char>, b: Seq<char>, c: Seq<char>)
    ensures
        !chars_lt(a, a),
        chars_lt(a, b) && chars_lt(b, c) ==> chars_lt(a, c),
        chars_lt(a, b) ==> a != b && !chars_lt(b, a),
{
    lemma_chars_lt_irreflexive(a);
    lemma_chars_lt_total(a, b);
    if chars_lt(a, b) && chars_lt(b, c) {
        lemma_chars_lt_transitive(a, b, c);
    }
    if chars_lt(a, b) && a == b {
        lemma_chars_lt_irreflexive(a);
    }
}

proof fn lemma_session_order()
    ensures
        strict_order(|a: SessionInfo, b: SessionInfo| session_before(a, b)),
{
    let before = |a: SessionInfo, b: SessionInfo| session_before(a, b);
    assert forall|a: SessionInfo| !#[trigger] before(a, a) by {
        lemma_chars_lt_irreflexive(a.dir_name@);
    }
    assert forall|a: SessionInfo, b: SessionInfo, c: SessionInfo|
        #[trigger] before(a, b) && #[trigger] before(b, c) implies before(a, c) by {
        let (la, lb, lc) = (lowercase_of(a.name@), lowercase_of(b.name@), lowercase_of(c.name@));
        lemma_chars_lt_order(c.date@, b.date@, a.date@);
        lemma_chars_lt_order(b.date@, c.date@, a.date@);
        lemma_chars_lt_order(c.date@, a.date@, b.date@);
        lemma_chars_lt_order(la, lb, lc);
        lemma_chars_lt_order(lb, la, lc);
        lemma_chars_lt_order(la, lc, lb);
        lemma_chars_lt_order(a.dir_name@, b.dir_name@, c.dir_name@);
    }
}

proof fn lemma_encounter_order()
    ensures
        strict_order(|a: EncounterInfo, b: EncounterInfo| encounter_before(a, b)),
{
    let before = |a: EncounterInfo, b: EncounterInfo| encounter_before(a, b);
    assert forall|a: EncounterInfo| !#[trigger] before(a, a) by {
        lemma_chars_lt_irreflexive(a.file_name@);
    }
    assert forall|a: EncounterInfo, b: EncounterInfo, c: EncounterInfo|
        #[trigger] before(a, b) && #[trigger] before(b, c) implies before(a, c) by {
        let (la, lb, lc) = (lowercase_of(a.name@), lowercase_of(b.name@), lowercase_of(c.name@));
        lemma_chars_lt_order(la, lb, lc);
        lemma_chars_lt_order(lb, la, lc);
        lemma_chars_lt_order(la, lc, lb);
        lemma_chars_lt_order(a.file_name@, b.file_name@, c.file_name@);
    }
}

/// The comparison of two strings: `-1`, `0` or `1` as `a` comes before,
/// equals, or comes after `b`.
fn compare_strings(a: &String, b: &String) -> (r: i8)
    ensures
        r == -1 <==> chars_lt(a@, b@),
        r == 0 <==> a@ == b@,
        r == 1 <==> chars_lt(b@, a@),
{
    let va = chars_of(a.as_str());
    let vb = chars_of(b.as_str());
    proof {
        lemma_chars_lt_order(a@, b@, a@);
        lemma_chars_lt_order(b@, a@, b@);
        lemma_chars_lt_total(a@, b@);
    }
    if chars_less(&va, &vb) {
        -1
    } else if chars_less(&vb, &va) {
        1
    } else {
        0
    }
}

/// Whether session `a` is listed before session `b`.
fn session_listed_before(a: &SessionInfo, b: &SessionInfo) -> (r: bool)
    ensures
        r == session_before(*a, *b),
{
    let dates = compare_strings(&a.date, &b.date);
    if dates != 0 {
        return dates == 1;
    }
    let names = compare_strings(&to_lowercase(a.name.as_str()), &to_lowercase(b.name.as_str()));
    if names != 0 {
        return names == -1;
    }
    compare_strings(&a.dir_name, &b.dir_name) == -1
}

/// Whether encounter `a` is listed before encounter `b`.
fn encounter_listed_before(a: &EncounterInfo, b: &EncounterInfo) -> (r: bool)
    ensures
        r == encounter_before(*a, *b),
{
    let names = compare_strings(&to_lowercase(a.name.as_str()), &to_lowercase(b.name.as_str()));
    if names != 0 {
        return names == -1;
    }
    compare_strings(&a.file_name, &b.file_name) == -1
}

/// The sessions in listing order: the latest date first, then by name
/// ignoring case, then by folder name; ties keep their order.
pub fn sort_sessions(sessions: Vec<SessionInfo>) -> (sorted: Vec<SessionInfo>)
    ensures
        ordered_by(sorted@, |a: SessionInfo, b: SessionInfo| session_before(a, b)),
        sorted@.to_multiset() == sessions@.to_multiset(),
        sorted@ == stable_sorted(sessions@, |a: SessionInfo, b: SessionInfo| session_before(a, b)),
{
    let ghost before = |a: SessionInfo, b: SessionInfo| session_before(a, b);
    proof {
        lemma_session_order();
    }
    let mut input = sessions;
    let ghost original = input@;
    let mut out: Vec<SessionInfo> = Vec::new();
    while input.len() > 0
        invariant
            strict_order(before),
            before == (|a: SessionInfo, b: SessionInfo| session_before(a, b)),
            ordered_by(out@, before),
            out@.to_multiset().add(input@.to_multiset()) == original.to_multiset(),
            input.len() <= original.len(),
            input@ == original.skip(original.len() - input.len()),
            out@ == stable_sorted(original.take(original.len() - input.len()), before),
        decreases input.len(),
    {
        let ghost k = original.len() - input.len();
        assert(input@[0] == original[k]);
        assert(original.take(k + 1).drop_last() =~= original.take(k));
        proof {
            lemma_first_multiset(input@);
        }
        let x = input.remove(0);
        let mut p: usize = 0;
        while p < out.len() && !session_listed_before(&x, &out[p])
            invariant
                p <= out.len(),
                forall|j: int| 0 <= j < p ==> !before(x, #[trigger] out@[j]),
                before == (|a: SessionInfo, b: SessionInfo| session_before(a, b)),
            decreases out.len() - p,
        {
            p = p + 1;
        }
        proof {
            lemma_insert_ordered(out@, p as int, x, before);
            lemma_insert_stable_at(out@, p as int, x, before);
            assert(input@ =~= original.skip(original.len() - input.len()));
        }
        out.insert(p, x);
    }
    assert(input@.to_multiset() =~= vstd::multiset::Multiset::empty());
    assert(original.take(original.len() as int) =~= original);
    out
}

/// The encounters in listing order: by name ignoring case, then by file
/// name; ties keep their order.
pub fn sort_encounters(encounters: Vec<EncounterInfo>) -> (sorted: Vec<EncounterInfo>)
    ensures
        ordered_by(sorted@, |a: EncounterInfo, b: EncounterInfo| encounter_before(a, b)),
        sorted@.to_multiset() == encounters@.to_multiset(),
        sorted@ == stable_sorted(encounters@, |a: EncounterInfo, b: EncounterInfo| encounter_before(a, b)),
{
    let ghost before = |a: EncounterInfo, b: EncounterInfo| encounter_before(a, b);
    proof {
        lemma_encounter_order();
    }
    let mut input = encounters;
    let ghost original = input@;
    let mut out: Vec<EncounterInfo> = Vec::new();
    while input.len() > 0
        invariant
            strict_order(before),
            before == (|a: EncounterInfo, b: EncounterInfo| encounter_before(a, b)),
            ordered_by(out@, before),
            out@.to_multiset().add(input@.to_multiset()) == original.to_multiset(),
            input.len() <= original.len(),
            input@ == original.skip(original.len() - input.len()),
            out@ == stable_sorted(original.take(original.len() - input.len()), before),
        decreases input.len(),
    {
        let ghost k = original.len() - input.len();
        assert(input@[0] == original[k]);
        assert(original.take(k + 1).drop_last() =~= original.take(k));
        proof {
            lemma_first_multiset(input@);
        }
        let x = input.remove(0);
        let mut p: usize = 0;
        while p < out.len() && !encounter_listed_before(&x, &out[p])
            invariant
                p <= out.len(),
                forall|j: int| 0 <= j < p ==> !before(x, #[trigger] out@[j]),
                before == (|a: EncounterInfo, b: EncounterInfo| encounter_before(a, b)),
            decreases out.len() - p,
        {
            p = p + 1;
        }
        proof {
            lemma_insert_ordered(out@, p as int, x, before);
            lemma_insert_stable_at(out@, p as int, x, before);
            assert(input@ =~= original.skip(original.len() - input.len()));
        }
        out.insert(p, x);
    }
    assert(input@.to_multiset() =~= vstd::multiset::Multiset::empty());
    assert(original.take(original.len() as int) =~= original);
    out
}

/// The stem of an encounter file name: the name without its `.ron` ending,
/// when it has that ending and something before it (as `Path::file_stem`
/// and `Path::extension` split such a name).
pub open spec fn ron_stem(name: Seq<char>) -> Option<Seq<char>> {
    if name.len() > 4 && name.skip(name.len() - 4) == ".ron"@ {
        Some(name.take(name.len() - 4))
    } else {
        None
    }
}

/// The characters of `name` without the `.ron` ending, if it has the
/// ending and something before it.
fn ron_stem_of(name: &str) -> (stem: Option<String>)
    ensures
        match stem {
            Some(s) => ron_stem(name@) == Some(s@),
            None => ron_stem(name@) is None,
        },
{
    proof {
        reveal_strlit(".ron");
    }
    let v = chars_of(name);
    let n = v.len();
    if n <= 4 {
        return None;
    }
    if v[n - 4] == '.' && v[n - 3] == 'r' && v[n - 2] == 'o' && v[n - 1] == 'n' {
        assert(v@.skip(n - 4) =~= ".ron"@);
        assert(v@.take(n - 4) =~= v@.subrange(0, n - 4));
        Some(string_from_chars(&v, 0, n - 4))
    } else {
        assert(v@.skip(n - 4)[0] == v@[n - 4]);
        assert(v@.skip(n - 4)[1] == v@[n - 3]);
        assert(v@.skip(n - 4)[2] == v@[n - 2]);
        assert(v@.skip(n - 4)[3] == v@[n - 1]);
        None
    }
}

/// Whether `a` and `b` hold the same characters.
fn same_chars(a: &Vec<char>, b: &Vec<char>) -> (r: bool)
    ensures
        r == (a@ == b@),
{
    if a.len() != b.len() {
        return false;
    }
    let mut i: usize = 0;
    while i < a.len()
        invariant
            i <= a.len() == b.len(),
            a@.take(i as int) == b@.take(i as int),
        decreases a.len() - i,
    {
        if a[i] != b[i] {
            assert(a@[i as int] != b@[i as int]);
            return false;
        }
        assert(a@.take(i + 1) =~= a@.take(i as int).push(a@[i as int]));
        assert(b@.take(i + 1) =~= b@.take(i as int).push(b@[i as int]));
        i = i + 1;
    }
    assert(a@ =~= a@.take(i as int));
    assert(b@ =~= b@.take(i as int));
    true
}

/// Whether a directory entry of a session is an encounter: a file whose name
/// ends in `.ron`, other than the session's own manifest.
pub fn is_encounter_file(file_name: &str, is_file: bool) -> (r: bool)
    ensures
        r == (is_file && file_name@ != "session.ron"@ && ron_stem(file_name@) is Some),
{
    proof {
        reveal_strlit("session.ron");
    }
    if !is_file {
        return false;
    }
    if same_chars(&chars_of(file_name), &chars_of("session.ron")) {
        return false;
    }
    ron_stem_of(file_name).is_some()
}

/// The name an encounter is listed under: the name saved in its file when
/// that could be read, else the file's stem made readable.
pub fn encounter_name(file_name: &str, saved_name: Option<String>) -> (name: String)
    ensures
        name@ == match saved_name {
            Some(n) => n@,
            None => match ron_stem(file_name@) {
                Some(stem) => deslug_of(stem),
                None => file_name@,
            },
        },
{
    match saved_name {
        Some(n) => n,
        None => match ron_stem_of(file_name) {
            Some(stem) => deslugify(stem.as_str()),
            None => file_name.to_string(),
        },
    }
}

} // verus!
