use vstd::prelude::*;

use vstd::utf8::valid_utf8;

verus! {

/// Files larger than this many bytes are not collected.
pub const MAX_FILE_SIZE: u64 = 1024 * 1024;

/// How many leading bytes the binary heuristic looks at.
pub const MIN_BINARY_CHECK_SIZE: usize = 1000;

/// More suspicious bytes than this among the leading ones mark a file binary.
pub const BINARY_THRESHOLD: usize = 300;

/// What the collector does with one directory entry.
#[derive(Clone, Copy, Debug, PartialEq, Eq, Structural)]
pub enum EntryAction {
    /// Leave the entry, and anything under it, out.
    Skip,
    /// List the directory and collect from it.
    Descend,
    /// Read the file and judge its content with `accept_content`.
    Read,
}

pub open spec fn components_view(p: Seq<String>) -> Seq<Seq<char>> {
    p.map_values(|c: String| c@)
}

/// `pattern` is a component-wise prefix of `path`.
pub open spec fn is_component_prefix(pattern: Seq<Seq<char>>, path: Seq<Seq<char>>) -> bool {
    pattern.len() <= path.len() && path.take(pattern.len() as int) == pattern
}

/// Some ignore pattern is a component-wise prefix of the relative path.
pub open spec fn is_ignored(path: Seq<Seq<char>>, patterns: Seq<Seq<Seq<char>>>) -> bool {
    exists|i: int| 0 <= i < patterns.len() && is_component_prefix(#[trigger] patterns[i], path)
}

pub open spec fn patterns_view(patterns: Seq<Vec<String>>) -> Seq<Seq<Seq<char>>> {
    patterns.map_values(|p: Vec<String>| components_view(p@))
}

pub open spec fn is_suspicious(b: u8) -> bool {
    b == 0 || b >= 128
}

/// How many bytes of `s` are zero or at least 128.
pub open spec fn suspicious_count(s: Seq<u8>) -> nat
    decreases s.len(),
{
    if s.len() == 0 {
        0
    } else {
        suspicious_count(s.drop_last()) + if is_suspicious(s.last()) {
            1nat
        } else {
            0nat
        }
    }
}

/// The leading bytes that the heuristic looks at.
pub open spec fn binary_window(content: Seq<u8>) -> Seq<u8> {
    if content.len() <= MIN_BINARY_CHECK_SIZE {
        content
    } else {
        content.take(MIN_BINARY_CHECK_SIZE as int)
    }
}

pub open spec fn looks_binary(content: Seq<u8>) -> bool {
    suspicious_count(binary_window(content)) > BINARY_THRESHOLD
}

/// What the collector does with an entry at `path` below the root.
pub open spec fn action_of(
    path: Seq<Seq<char>>,
    patterns: Seq<Seq<Seq<char>>>,
    is_dir: bool,
    size: Option<u64>,
) -> EntryAction {
    if is_ignored(path, patterns) {
        EntryAction::Skip
    } else if is_dir {
        EntryAction::Descend
    } else {
        match size {
            Some(n) => if n <= MAX_FILE_SIZE {
                EntryAction::Read
            } else {
                EntryAction::Skip
            },
            None => EntryAction::Skip,
        }
    }
}

/// A read file is collected when it does not look binary and is UTF-8 text.
pub open spec fn content_accepted(content: Seq<u8>) -> bool {
    !looks_binary(content) && valid_utf8(content)
}

fn starts_with_components(path: &Vec<String>, pattern: &Vec<String>) -> (r: bool)
    ensures
        r == is_component_prefix(components_view(pattern@), components_view(path@)),
{
    if pattern.len() > path.len() {
        return false;
    }
    let mut i: usize = 0;
    while i < pattern.len()
        invariant
            pattern@.len() <= path@.len(),
            i <= pattern@.len(),
            forall|k: int| 0 <= k < i ==> (#[trigger] path@[k])@ == pattern@[k]@,
        decreases pattern@.len() - i,
    {
        if path[i] != pattern[i] {
            assert(components_view(path@).take(pattern@.len() as int)[i as int] != components_view(pattern@)[i as int]);
            return false;
        }
        i = i + 1;
    }
    assert(components_view(path@).take(pattern@.len() as int) =~= components_view(pattern@));
    true
}

/// Whether some ignore pattern is a component-wise prefix of `path`, the
/// entry's path relative to the root, both given as their components.
pub fn should_ignore(path: &Vec<String>, ignore_paths: &Vec<Vec<String>>) -> (r: bool)
    ensures
        r == is_ignored(components_view(path@), patterns_view(ignore_paths@)),
{
    let mut i: usize = 0;
    while i < ignore_paths.len()
        invariant
            i <= ignore_paths@.len(),
            forall|k: int| 0 <= k < i ==> !is_component_prefix(
                #[trigger] patterns_view(ignore_paths@)[k],
                components_view(path@),
            ),
        decreases ignore_paths@.len() - i,
    {
        if starts_with_components(path, &ignore_paths[i]) {
            assert(is_component_prefix(patterns_view(ignore_paths@)[i as int], components_view(path@)));
            return true;
        }
        i = i + 1;
    }
    false
}

/// Decides on one entry: ignored entries are skipped, directories entered,
/// and files read only when their size is known and within the cap.
pub fn entry_action(
    path: &Vec<String>,
    ignore_paths: &Vec<Vec<String>>,
    is_dir: bool,
    size: Option<u64>,
) -> (r: EntryAction)
    ensures
        r == action_of(components_view(path@), patterns_view(ignore_paths@), is_dir, size),
{
    if should_ignore(path, ignore_paths) {
        EntryAction::Skip
    } else if is_dir {
        EntryAction::Descend
    } else {
        match size {
            Some(n) => if n <= MAX_FILE_SIZE {
                EntryAction::Read
            } else {
                EntryAction::Skip
            },
            None => EntryAction::Skip,
        }
    }
}

/// Whether more than `BINARY_THRESHOLD` of the first `MIN_BINARY_CHECK_SIZE`
/// bytes are zero or at least 128.
pub fn is_binary_file(content: &Vec<u8>) -> (r: bool)
    ensures
        r == looks_binary(content@),
{
    let check_size: usize = if content.len() < MIN_BINARY_CHECK_SIZE {
        content.len()
    } else {
        MIN_BINARY_CHECK_SIZE
    };
    let mut count: usize = 0;
    let mut i: usize = 0;
    while i < check_size
        invariant
            check_size <= content@.len(),
            check_size <= MIN_BINARY_CHECK_SIZE,
            i <= check_size,
            count as nat == suspicious_count(content@.take(i as int)),
            count <= i,
        decreases check_size - i,
    {
        assert(content@.take(i as int + 1).drop_last() =~= content@.take(i as int));
        let b = content[i];
        if b == 0 || b >= 128 {
            count = count + 1;
        }
        i = i + 1;
    }
    assert(content@.take(check_size as int) =~= binary_window(content@));
    count > BINARY_THRESHOLD
}

/// Relies on std::str::from_utf8: it succeeds exactly on well-formed UTF-8.
#[verifier::external_body]
fn is_utf8(bytes: &[u8]) -> (r: bool)
    ensures
        r == valid_utf8(bytes@),
{
    std::str::from_utf8(bytes).is_ok()
}

/// Whether a read file is collected: it must not look binary and must be
/// UTF-8 text.
pub fn accept_content(content: &Vec<u8>) -> (r: bool)
    ensures
        r == content_accepted(content@),
{
    if is_binary_file(content) {
        return false;
    }
    is_utf8(content.as_slice())
}

/// The collection of one walk: the caller lists directories, hands each
/// entry to `on_entry` and does what it answers; for `Read` it reads the file
/// and hands the bytes, or `None` where the read failed, to `on_content`.
pub struct Collector {
    patterns: Vec<Vec<String>>,
    entries: Vec<Vec<String>>,
    sizes: Vec<Option<u64>>,
    pending: Option<usize>,
    files: Vec<usize>,
    contents: Ghost<Seq<Seq<u8>>>,
}

impl Collector {
    pub closed spec fn patterns(&self) -> Seq<Seq<Seq<char>>> {
        patterns_view(self.patterns@)
    }

    /// The paths of the entries seen so far, relative to the root, in order.
    pub closed spec fn entries(&self) -> Seq<Seq<Seq<char>>> {
        self.entries@.map_values(|p: Vec<String>| components_view(p@))
    }

    pub closed spec fn sizes(&self) -> Seq<Option<u64>> {
        self.sizes@
    }

    /// The entry whose content is awaited.
    pub closed spec fn pending(&self) -> Option<usize> {
        self.pending
    }

    /// The entries collected so far, in order.
    pub closed spec fn files(&self) -> Seq<usize> {
        self.files@
    }

    /// The content that was read for each collected entry, in the same order.
    pub closed spec fn file_contents(&self) -> Seq<Seq<u8>> {
        self.contents@
    }

    /// Every collected entry, and the one whose content is awaited, was seen,
    /// is not ignored, and has a known size within the cap; collected entries
    /// come once each, in the order seen, and their content was accepted.
    pub open spec fn wf(&self) -> bool {
        &&& self.entries().len() == self.sizes().len()
        &&& self.file_contents().len() == self.files().len()
        &&& forall|k: int| 0 <= k < self.files().len() ==> content_accepted(#[trigger] self.file_contents()[k])
        &&& forall|a: int, b: int| 0 <= a < b < self.files().len() ==> #[trigger] self.files()[a] < #[trigger] self.files()[b]
        &&& (self.pending() matches Some(i) ==> {
            &&& i < self.entries().len()
            &&& forall|k: int| 0 <= k < self.files().len() ==> #[trigger] self.files()[k] < i
            &&& !is_ignored(self.entries()[i as int], self.patterns())
            &&& self.sizes()[i as int] matches Some(n) && n <= MAX_FILE_SIZE
        })
        &&& forall|k: int| 0 <= k < self.files().len() ==> {
            let e = #[trigger] self.files()[k] as int;
            &&& 0 <= e < self.entries().len()
            &&& !is_ignored(self.entries()[e], self.patterns())
            &&& self.sizes()[e] matches Some(n) && n <= MAX_FILE_SIZE
        }
    }

    pub fn new(ignore_paths: Vec<Vec<String>>) -> (r: Collector)
        ensures
            r.wf(),
            r.patterns() == patterns_view(ignore_paths@),
            r.entries().len() == 0,
            r.files().len() == 0,
            r.pending() is None,
    {
        Collector {
            patterns: ignore_paths,
            entries: Vec::new(),
            sizes: Vec::new(),
            pending: None,
            files: Vec::new(),
            contents: Ghost(Seq::empty()),
        }
    }

    /// Records an entry, with its path relative to the root given as
    /// components, and says what to do with it. A read still awaited is
    /// given up: that entry stays uncollected.
    pub fn on_entry(&mut self, path: Vec<String>, is_dir: bool, size: Option<u64>) -> (r: EntryAction)
        requires
            old(self).wf(),
        ensures
            final(self).wf(),
            r == action_of(components_view(path@), old(self).patterns(), is_dir, size),
            final(self).patterns() == old(self).patterns(),
            final(self).entries() == old(self).entries().push(components_view(path@)),
            final(self).sizes() == old(self).sizes().push(size),
            final(self).files() == old(self).files(),
            final(self).file_contents() == old(self).file_contents(),
            final(self).pending() == (if r == EntryAction::Read {
                Some(old(self).entries().len() as usize)
            } else {
                None
            }),
    {
        let r = entry_action(&path, &self.patterns, is_dir, size);
        let id = self.entries.len();
        let ghost prev = self.entries@;
        self.entries.push(path);
        self.sizes.push(size);
        assert(self.entries@.map_values(|p: Vec<String>| components_view(p@)) =~= prev.map_values(
            |p: Vec<String>| components_view(p@),
        ).push(components_view(self.entries@[id as int]@)));
        if r == EntryAction::Read {
            self.pending = Some(id);
        } else {
            self.pending = None;
        }
        r
    }

    /// Takes the content of the entry that `on_entry` asked to read, `None`
    /// where it could not be read, and collects the entry where the content
    /// is accepted.
    pub fn on_content(&mut self, content: Option<&Vec<u8>>) -> (r: bool)
        requires
            old(self).wf(),
            old(self).pending() is Some,
        ensures
            final(self).wf(),
            r == (content matches Some(c) && content_accepted(c@)),
            final(self).patterns() == old(self).patterns(),
            final(self).entries() == old(self).entries(),
            final(self).sizes() == old(self).sizes(),
            final(self).files() == (if r {
                old(self).files().push(old(self).pending()->Some_0)
            } else {
                old(self).files()
            }),
            final(self).file_contents() == (if r {
                old(self).file_contents().push(content->Some_0@)
            } else {
                old(self).file_contents()
            }),
            final(self).pending() is None,
    {
        let id = match self.pending {
            Some(i) => i,
            None => 0,
        };
        self.pending = None;
        let ok = match content {
            Some(c) => accept_content(c),
            None => false,
        };
        if ok {
            self.files.push(id);
            proof {
                self.contents@ = self.contents@.push(content->Some_0@);
            }
        }
        ok
    }

    /// The collected entries, by the order in which `on_entry` saw them.
    pub fn into_files(self) -> (r: Vec<usize>)
        ensures
            r@ == self.files(),
    {
        self.files
    }
}

/// Nothing that the collector holds lies under an ignore pattern or exceeds
/// the size cap.
pub proof fn lemma_collected_files_pass_filters(c: &Collector, k: int)
    requires
        c.wf(),
        0 <= k < c.files().len(),
    ensures
        !is_ignored(c.entries()[c.files()[k] as int], c.patterns()),
        c.sizes()[c.files()[k] as int] matches Some(n) && n <= MAX_FILE_SIZE,
        content_accepted(c.file_contents()[k]),
{
}

/// Nothing that the collector holds lies under an ignored path: no collected
/// entry's path extends a path that an ignore pattern covers.
pub proof fn lemma_nothing_collected_under_ignored(c: &Collector, dir: Seq<Seq<char>>, k: int)
    requires
        c.wf(),
        is_ignored(dir, c.patterns()),
        0 <= k < c.files().len(),
    ensures
        !is_component_prefix(dir, c.entries()[c.files()[k] as int]),
{
    let path = c.entries()[c.files()[k] as int];
    if is_component_prefix(dir, path) {
        lemma_ignored_subtree(dir, path, c.patterns());
    }
}

/// An ignored directory hides everything under it: every path that extends
/// an ignored path is ignored too, so the collector never reads it.
pub proof fn lemma_ignored_subtree(
    dir: Seq<Seq<char>>,
    path: Seq<Seq<char>>,
    patterns: Seq<Seq<Seq<char>>>,
)
    requires
        is_ignored(dir, patterns),
        is_component_prefix(dir, path),
    ensures
        is_ignored(path, patterns),
        forall|is_dir: bool, size: Option<u64>| #[trigger] action_of(path, patterns, is_dir, size) == EntryAction::Skip,
{
    let i = choose|i: int| 0 <= i < patterns.len() && is_component_prefix(#[trigger] patterns[i], dir);
    assert(path.take(patterns[i].len() as int) =~= dir.take(patterns[i].len() as int));
    assert(is_component_prefix(patterns[i], path));
}

/// Files over the size cap are never read, so never collected; a file at or
/// under it that is not ignored, is UTF-8 text and does not look binary is
/// read and collected.
pub proof fn lemma_size_cap(
    path: Seq<Seq<char>>,
    patterns: Seq<Seq<Seq<char>>>,
    size: u64,
    content: Seq<u8>,
)
    ensures
        size > MAX_FILE_SIZE ==> action_of(path, patterns, false, Some(size)) == EntryAction::Skip,
        size <= MAX_FILE_SIZE && !is_ignored(path, patterns) && valid_utf8(content) && !looks_binary(content)
            ==> action_of(path, patterns, false, Some(size)) == EntryAction::Read && content_accepted(content),
{
}

/// No suspicious byte among the leading ones never looks binary; more than
/// the threshold of them always does.
pub proof fn lemma_binary_heuristic(content: Seq<u8>)
    ensures
        suspicious_count(binary_window(content)) == 0 ==> !looks_binary(content),
        suspicious_count(binary_window(content)) > BINARY_THRESHOLD ==> looks_binary(content),
{
}

} // verus!
