//! Packing an addon folder into a `.gma` archive: which files are ignored,
//! how their names are written, and the archive they go into. The caller
//! walks the folder and reads the files.
use vstd::prelude::*;
use vstd::string::StringExecFns;
use gma_lite::Builder;
use crate::text::{
    forward_slashes, slashes_forward, to_lowercase, lowercase,
};

verus! {

/// A `.gma` archive being built, from `gma_lite`.
#[verifier::external_type_specification]
#[verifier::external_body]
pub struct ExBuilder(Builder);

/// The files an archive holds, in order: name and contents.
pub uninterp spec fn gma_entries(archive: Builder) -> Seq<(Seq<char>, Seq<u8>)>;

/// The addon name, SteamID64 and author an archive is written with.
pub uninterp spec fn gma_header(archive: Builder) -> (Seq<char>, i64, Seq<char>);

/// Calls `Builder::new`: an archive with no files, the given name and
/// SteamID64, and the author "unknown".
#[verifier::external_body]
fn builder_new(name: &str, steam_id64: i64) -> (res: Builder)
    ensures
        gma_entries(res) == Seq::<(Seq<char>, Seq<u8>)>::empty(),
        gma_header(res) == (name@, steam_id64, "unknown"@),
{
    Builder::new(name, steam_id64)
}

/// Calls `Builder::set_author`: the author is replaced, nothing else changes.
#[verifier::external_body]
fn builder_set_author(archive: &mut Builder, author: &str)
    ensures
        gma_entries(*final(archive)) == gma_entries(*old(archive)),
        gma_header(*final(archive)) == (gma_header(*old(archive)).0, gma_header(*old(archive)).1, author@),
{
    archive.set_author(author)
}

/// Calls `Builder::file_from_bytes`: the file is appended, nothing else
/// changes.
#[verifier::external_body]
fn builder_add_file(archive: &mut Builder, name: String, bytes: Vec<u8>)
    ensures
        gma_entries(*final(archive)) == gma_entries(*old(archive)).push((name@, bytes@)),
        gma_header(*final(archive)) == gma_header(*old(archive)),
{
    archive.file_from_bytes(name, bytes)
}

/// Wildcard matching as `wildmatch` defines it: `*` stands for any run of
/// characters, `?` for any one character, every other character for itself.
pub open spec fn glob_matches(pattern: Seq<char>, text: Seq<char>) -> bool
    decreases pattern.len() + text.len(),
{
    if pattern.len() == 0 {
        text.len() == 0
    } else if pattern[0] == '*' {
        glob_matches(pattern.drop_first(), text) || (text.len() > 0 && glob_matches(
            pattern,
            text.drop_first(),
        ))
    } else {
        text.len() > 0 && (pattern[0] == '?' || pattern[0] == text[0]) && glob_matches(
            pattern.drop_first(),
            text.drop_first(),
        )
    }
}

/// Calls `WildMatch::new(pattern).matches(text)`; the result is the case
/// sensitive wildcard match of `glob_matches`.
#[verifier::external_body]
fn wildcard_match(pattern: &str, text: &str) -> (res: bool)
    ensures
        res == glob_matches(pattern@, text@),
{
    wildmatch::WildMatch::new(pattern).matches(text)
}

/// The entries of the array stored under `key` in the JSON object `text`,
/// each with its text when it is a string; nothing when `text` is not JSON,
/// not an object, has no such key, or holds no array there.
pub uninterp spec fn json_array_field(text: Seq<char>, key: Seq<char>) -> Option<
    Seq<Option<Seq<char>>>,
>;

/// Parses `text` with `serde_json::from_str::<serde_json::Value>` and reads
/// the array under `key` (`Value::get`, `Value::as_array`, `Value::as_str`),
/// converting it to plain values; the outcome is named by `json_array_field`,
/// a function of the text and the key alone.
#[verifier::external_body]
fn json_array_field_of(text: &str, key: &str) -> (res: Option<Vec<Option<String>>>)
    ensures
        json_array_field(text@, key@) == match res {
            Some(v) => Some(v@.map_values(|e: Option<String>| match e {
                Some(s) => Some(s@),
                None => None,
            })),
            None => None::<Seq<Option<Seq<char>>>>,
        },
{
    let meta = serde_json::from_str::<serde_json::Value>(text).ok()?;
    let items = meta.get(key)?.as_array()?;
    Some(items.iter().map(|v| v.as_str().map(|s| s.to_string())).collect())
}

/// The patterns every pack ignores.
pub open spec fn default_ignores_spec() -> Seq<Seq<char>> {
    seq!["*thumbs.db"@, "*desktop.ini"@, ".git*"@, ".ds_store"@, "*/.ds_store"@]
}

/// The string entries of an `ignore` array, lower-cased, in order.
pub open spec fn string_entries(entries: Seq<Option<Seq<char>>>) -> Seq<Seq<char>>
    decreases entries.len(),
{
    if entries.len() == 0 {
        Seq::empty()
    } else {
        let rest = string_entries(entries.drop_last());
        match entries.last() {
            Some(s) => rest.push(lowercase(s)),
            None => rest,
        }
    }
}

/// The patterns the addon metadata adds: the lower-cased strings of its
/// `ignore` array; none without readable metadata.
pub open spec fn user_ignores_spec(addon_json: Option<Seq<char>>) -> Seq<Seq<char>> {
    match addon_json {
        Some(text) => match json_array_field(text, "ignore"@) {
            Some(entries) => string_entries(entries),
            None => Seq::empty(),
        },
        None => Seq::empty(),
    }
}

/// All patterns a pack ignores: the defaults, then those of the metadata.
pub open spec fn pack_ignores_spec(addon_json: Option<Seq<char>>) -> Seq<Seq<char>> {
    default_ignores_spec() + user_ignores_spec(addon_json)
}

/// The name a file is stored under: its path relative to the addon folder,
/// with forward slashes, lower-cased.
pub open spec fn archive_name(relative: Seq<char>) -> Seq<char> {
    lowercase(slashes_forward(relative))
}

/// Some pattern matches `name`.
pub open spec fn ignored_by(patterns: Seq<Seq<char>>, name: Seq<char>) -> bool {
    exists|i: int| 0 <= i < patterns.len() && glob_matches(#[trigger] patterns[i], name)
}

/// What becomes of one file of the addon folder.
pub enum FileAction {
    /// The metadata file `addon.json`, which never goes into the archive.
    Metadata,
    /// Matched by an ignore pattern.
    Ignored,
    /// To be packed under this name, if the whitelist allows it.
    Candidate(String),
}

pub enum FileActionView {
    Metadata,
    Ignored,
    Candidate(Seq<char>),
}

impl View for FileAction {
    type V = FileActionView;

    open spec fn view(&self) -> FileActionView {
        match self {
            FileAction::Metadata => FileActionView::Metadata,
            FileAction::Ignored => FileActionView::Ignored,
            FileAction::Candidate(s) => FileActionView::Candidate(s@),
        }
    }
}

/// What becomes of the file at `relative` (its path within the addon folder).
pub open spec fn classify_spec(relative: Seq<char>, patterns: Seq<Seq<char>>) -> FileActionView {
    let name = archive_name(relative);
    if name == "addon.json"@ {
        FileActionView::Metadata
    } else if ignored_by(patterns, name) {
        FileActionView::Ignored
    } else {
        FileActionView::Candidate(name)
    }
}

/// The error for a file the whitelist refuses.
pub open spec fn not_allowed_message(name: Seq<char>) -> Seq<char> {
    "File "@ + name + " is not allowed, add it to ignore list"@
}

/// The patterns every pack ignores.
pub fn default_ignores() -> (res: Vec<String>)
    ensures
        res@.map_values(|s: String| s@) == default_ignores_spec(),
{
    let mut res: Vec<String> = Vec::new();
    res.push(String::from_str("*thumbs.db"));
    res.push(String::from_str("*desktop.ini"));
    res.push(String::from_str(".git*"));
    res.push(String::from_str(".ds_store"));
    res.push(String::from_str("*/.ds_store"));
    assert(res@.map_values(|s: String| s@) =~= default_ignores_spec());
    res
}

/// The patterns the addon metadata `addon_json` (the text of `addon.json`,
/// if it could be read) adds: the strings of its `ignore` array, lower-cased.
pub fn user_ignores(addon_json: Option<&str>) -> (res: Vec<String>)
    ensures
        res@.map_values(|s: String| s@) == user_ignores_spec(
            match addon_json {
                Some(t) => Some(t@),
                None => None,
            },
        ),
{
    let mut res: Vec<String> = Vec::new();
    let text = match addon_json {
        Some(t) => t,
        None => {
            assert(res@.map_values(|s: String| s@) =~= Seq::<Seq<char>>::empty());
            return res;
        },
    };
    let entries = match json_array_field_of(text, "ignore") {
        Some(v) => v,
        None => {
            assert(res@.map_values(|s: String| s@) =~= Seq::<Seq<char>>::empty());
            return res;
        },
    };
    let ghost all = entries@.map_values(
        |e: Option<String>|
            match e {
                Some(s) => Some(s@),
                None => None,
            },
    );
    for i in 0..entries.len()
        invariant
            all == entries@.map_values(
                |e: Option<String>|
                    match e {
                        Some(s) => Some(s@),
                        None => None,
                    },
            ),
            res@.map_values(|s: String| s@) == string_entries(all.subrange(0, i as int)),
    {
        let ghost before = res@.map_values(|s: String| s@);
        assert(all.subrange(0, i + 1).drop_last() =~= all.subrange(0, i as int));
        match &entries[i] {
            Some(s) => {
                res.push(to_lowercase(s.as_str()));
                assert(res@.map_values(|s: String| s@) =~= before.push(lowercase(s@)));
            },
            None => {},
        }
    }
    assert(all.subrange(0, entries.len() as int) =~= all);
    res
}

/// All patterns a pack ignores: the defaults, then those the addon metadata
/// adds.
pub fn pack_ignores(addon_json: Option<&str>) -> (res: Vec<String>)
    ensures
        res@.map_values(|s: String| s@) == pack_ignores_spec(
            match addon_json {
                Some(t) => Some(t@),
                None => None,
            },
        ),
{
    let mut res = default_ignores();
    let mut user = user_ignores(addon_json);
    let ghost a = res@.map_values(|s: String| s@);
    let ghost b = user@.map_values(|s: String| s@);
    res.append(&mut user);
    assert(res@.map_values(|s: String| s@) =~= a + b);
    res
}

/// The name the file at `relative` is stored under: forward slashes,
/// lower-cased.
pub fn archive_name_of(relative: &str) -> (res: String)
    ensures
        res@ == archive_name(relative@),
{
    let slashed = forward_slashes(relative);
    to_lowercase(slashed.as_str())
}

/// Whether some pattern of `patterns` matches `name`.
pub fn is_ignored(patterns: &Vec<String>, name: &str) -> (res: bool)
    ensures
        res == ignored_by(patterns@.map_values(|s: String| s@), name@),
{
    let ghost ps = patterns@.map_values(|s: String| s@);
    for i in 0..patterns.len()
        invariant
            ps == patterns@.map_values(|s: String| s@),
            forall|k: int| 0 <= k < i ==> !glob_matches(#[trigger] ps[k], name@),
    {
        if wildcard_match(patterns[i].as_str(), name) {
            assert(glob_matches(ps[i as int], name@));
            return true;
        }
    }
    false
}

/// What becomes of the file at `relative` (its path within the addon folder,
/// as text): `addon.json` stays out, files matched by a pattern are ignored,
/// every other file is a candidate under its archive name.
pub fn classify_file(relative: &str, patterns: &Vec<String>) -> (res: FileAction)
    ensures
        res@ == classify_spec(relative@, patterns@.map_values(|s: String| s@)),
{
    let name = archive_name_of(relative);
    let metadata = String::from_str("addon.json");
    if name == metadata {
        FileAction::Metadata
    } else if is_ignored(patterns, name.as_str()) {
        FileAction::Ignored
    } else {
        FileAction::Candidate(name)
    }
}

/// A candidate goes into the archive when the whitelist allows it; otherwise
/// packing stops with an error that names it.
pub fn admit_file(name: String, allowed: bool) -> (res: Result<String, String>)
    ensures
        match res {
            Ok(n) => allowed && n@ == name@,
            Err(e) => !allowed && e@ == not_allowed_message(name@),
        },
{
    if allowed {
        Ok(name)
    } else {
        let mut msg = String::from_str("File ");
        msg.append(name.as_str());
        msg.append(" is not allowed, add it to ignore list");
        Err(msg)
    }
}

/// The builder of an archive and the number of files added to it.
struct ArchiveParts {
    builder: Builder,
    count: usize,
}

impl ArchiveParts {
    spec fn counted(&self) -> bool {
        self.count == gma_entries(self.builder).len()
    }

    fn add(&mut self, name: String, bytes: Vec<u8>)
        requires
            old(self).counted(),
            gma_entries(old(self).builder).len() < usize::MAX,
        ensures
            final(self).counted(),
            gma_entries(final(self).builder) == gma_entries(old(self).builder).push((name@, bytes@)),
            gma_header(final(self).builder) == gma_header(old(self).builder),
    {
        builder_add_file(&mut self.builder, name, bytes);
        self.count = self.count + 1;
    }
}

/// An archive being packed; it keeps count of the files in it.
pub struct PackArchive {
    parts: ArchiveParts,
}

pub struct ArchiveView {
    pub entries: Seq<(Seq<char>, Seq<u8>)>,
    pub header: (Seq<char>, i64, Seq<char>),
}

impl View for PackArchive {
    type V = ArchiveView;

    closed spec fn view(&self) -> ArchiveView {
        ArchiveView {
            entries: gma_entries(self.parts.builder),
            header: gma_header(self.parts.builder),
        }
    }
}

impl PackArchive {
    /// The count kept is the number of files in the archive.
    #[verifier::type_invariant]
    closed spec fn inv(self) -> bool {
        self.parts.counted()
    }

    /// An empty archive for the addon `title`, by the user `author` with the
    /// given SteamID64.
    pub fn new(title: &str, steam_id64: i64, author: &str) -> (res: Self)
        ensures
            res@.entries == Seq::<(Seq<char>, Seq<u8>)>::empty(),
            res@.header == (title@, steam_id64, author@),
    {
        let mut builder = builder_new(title, steam_id64);
        builder_set_author(&mut builder, author);
        PackArchive { parts: ArchiveParts { builder, count: 0 } }
    }

    /// The number of files packed so far.
    pub fn len(&self) -> (res: usize)
        ensures
            res == self@.entries.len(),
    {
        proof {
            use_type_invariant(self);
        }
        self.parts.count
    }

    /// Appends a file.
    pub fn add_file(&mut self, name: String, bytes: Vec<u8>)
        requires
            old(self)@.entries.len() < usize::MAX,
        ensures
            final(self)@.entries == old(self)@.entries.push((name@, bytes@)),
            final(self)@.header == old(self)@.header,
    {
        proof {
            use_type_invariant(&*self);
        }
        // An empty stand-in holds the place while the parts are updated.
        let mut parts = ArchiveParts { builder: builder_new("", 0), count: 0 };
        std::mem::swap(&mut parts, &mut self.parts);
        parts.add(name, bytes);
        self.parts = parts;
    }

    /// The archive to write, or the error that nothing was packed.
    pub fn finish(self) -> (res: Result<Builder, String>)
        ensures
            match res {
                Ok(b) => self@.entries.len() > 0 && gma_entries(b) == self@.entries && gma_header(b)
                    == self@.header,
                Err(e) => self@.entries.len() == 0 && e@
                    == "No files to pack (everything was ignored or the folder is empty)."@,
            },
    {
        proof {
            use_type_invariant(&self);
        }
        if self.parts.count == 0 {
            Err(String::from_str("No files to pack (everything was ignored or the folder is empty)."))
        } else {
            Ok(self.parts.builder)
        }
    }
}

/// `*` matches every name.
pub proof fn lemma_star_matches_all(text: Seq<char>)
    ensures
        glob_matches(seq!['*'], text),
    decreases text.len(),
{
    let star = seq!['*'];
    assert(star[0] == '*');
    assert(star.drop_first() =~= Seq::<char>::empty());
    if text.len() > 0 {
        lemma_star_matches_all(text.drop_first());
        assert(glob_matches(star, text.drop_first()));
    } else {
        assert(glob_matches(star.drop_first(), text));
    }
}

/// A pattern without wildcards matches exactly itself.
pub proof fn lemma_literal_matches_itself(text: Seq<char>)
    requires
        forall|i: int| 0 <= i < text.len() ==> text[i] != '*' && text[i] != '?',
    ensures
        glob_matches(text, text),
    decreases text.len(),
{
    if text.len() > 0 {
        lemma_literal_matches_itself(text.drop_first());
    }
}

/// The default patterns are always among those of a pack, first and in order.
pub proof fn lemma_defaults_first(addon_json: Option<Seq<char>>)
    ensures
        pack_ignores_spec(addon_json).subrange(0, 5) == default_ignores_spec(),
{
    assert(pack_ignores_spec(addon_json).subrange(0, 5) =~= default_ignores_spec());
}

/// Turning backslashes into slashes twice is the same as once.
proof fn lemma_slashes_forward_settled(r: Seq<char>)
    ensures
        slashes_forward(slashes_forward(r)) == slashes_forward(r),
{
    assert(slashes_forward(slashes_forward(r)) =~= slashes_forward(r));
}

/// A Windows path and the same path written with forward slashes are
/// classified alike: patterns are tried on the name with forward slashes.
pub proof fn lemma_classify_ignores_separator(relative: Seq<char>, patterns: Seq<Seq<char>>)
    ensures
        classify_spec(relative, patterns) == classify_spec(slashes_forward(relative), patterns),
{
    lemma_slashes_forward_settled(relative);
}

/// A file is ignored exactly when it is not `addon.json` and some pattern
/// matches its name written with forward slashes and lower-cased.
pub proof fn lemma_ignored_iff_matched(relative: Seq<char>, patterns: Seq<Seq<char>>)
    ensures
        classify_spec(relative, patterns) == FileActionView::Ignored <==> (lowercase(
            slashes_forward(relative),
        ) != "addon.json"@ && exists|i: int|
            0 <= i < patterns.len() && glob_matches(
                #[trigger] patterns[i],
                lowercase(slashes_forward(relative)),
            )),
{
}

/// A candidate is named by its path with forward slashes, lower-cased, and no
/// pattern matches that name.
pub proof fn lemma_candidate_unmatched(relative: Seq<char>, patterns: Seq<Seq<char>>)
    ensures
        classify_spec(relative, patterns) matches FileActionView::Candidate(n) ==> {
            &&& n == lowercase(slashes_forward(relative))
            &&& forall|i: int| 0 <= i < patterns.len() ==> !glob_matches(#[trigger] patterns[i], n)
        },
{
}

} // verus!
