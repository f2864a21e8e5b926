use crate::config::Config;
use crate::error::AppError;
use ignore::{DirEntry, WalkBuilder, WalkParallel, WalkState};
use vstd::prelude::*;
use vstd::std_specs::iter::IteratorSpec;
use vstd::utf8::{encode_utf8, is_char_boundary};

verus! {

#[verifier::external_type_specification]
#[verifier::external_body]
pub struct ExWalkBuilder(WalkBuilder);

#[verifier::external_type_specification]
#[verifier::external_body]
pub struct ExWalkParallel(WalkParallel);

#[verifier::external_type_specification]
#[verifier::external_body]
pub struct ExDirEntry(DirEntry);

#[verifier::external_type_specification]
#[verifier::external_body]
pub struct ExIgnoreError(ignore::Error);

/// How the traversal is set up.
#[derive(Debug, Clone, Copy, PartialEq, Eq, Structural)]
pub struct WalkOptions {
    /// Hidden entries are skipped and ignore files (`.gitignore`, `.ignore`,
    /// git's exclude and global files, those of parent directories) apply.
    pub standard_filters: bool,
    /// Git ignore rules apply only inside a git repository.
    pub require_git: bool,
    /// Symbolic links are followed (the traversal breaks cycles).
    pub follow_links: bool,
}

/// "All" mode overrides filtering as a whole: hidden entries and ignored
/// entries are both surfaced. Otherwise both filters apply, and ignore files
/// are honoured whether or not the root lies in a git repository.
pub fn walk_options(all: bool) -> (r: WalkOptions)
    ensures
        r.standard_filters == !all,
        r.require_git == false,
        r.follow_links == true,
{
    WalkOptions { standard_filters: !all, require_git: false, follow_links: true }
}

/// Relies on `WalkBuilder::new`: a traversal rooted at `root`, with the
/// standard filters on.
#[verifier::external_body]
fn builder_new(root: &str) -> (r: WalkBuilder) {
    WalkBuilder::new(root)
}

/// Relies on `WalkBuilder::standard_filters`: toggles the hidden, parents,
/// ignore, git_ignore, git_global and git_exclude filters together.
#[verifier::external_body]
fn builder_standard_filters(b: &mut WalkBuilder, yes: bool) {
    b.standard_filters(yes);
}

/// Relies on `WalkBuilder::require_git`.
#[verifier::external_body]
fn builder_require_git(b: &mut WalkBuilder, yes: bool) {
    b.require_git(yes);
}

/// Relies on `WalkBuilder::follow_links`.
#[verifier::external_body]
fn builder_follow_links(b: &mut WalkBuilder, yes: bool) {
    b.follow_links(yes);
}

/// Relies on `WalkBuilder::build_parallel`: a multi-threaded traversal.
#[verifier::external_body]
fn builder_build_parallel(b: &WalkBuilder) -> (r: WalkParallel) {
    b.build_parallel()
}

/// Relies on `DirEntry::path`: the entry's full path, as text (lossy where the
/// name is not Unicode).
#[verifier::external_body]
fn entry_path(e: &DirEntry) -> (r: String) {
    e.path().to_string_lossy().into_owned()
}

/// Relies on `DirEntry::file_type`: whether the entry (its target, where links
/// are followed) is a regular file.
#[verifier::external_body]
fn entry_is_file(e: &DirEntry) -> (r: bool) {
    e.file_type().map_or(false, |t| t.is_file())
}

/// Relies on the `Display` of `ignore::Error`: its description.
#[verifier::external_body]
fn error_text(e: &ignore::Error) -> (r: String) {
    e.to_string()
}

/// Relies on `WalkParallel::run`: every entry that the traversal visits is
/// handed to a visitor, on several threads; each becomes a `RawEntry`, and all
/// of them are collected once every worker has finished.
#[verifier::external_body]
fn run_walk(walker: WalkParallel) -> (r: Vec<RawEntry>) {
    let (tx, rx) = std::sync::mpsc::channel();
    walker.run(move || {
        let tx = tx.clone();
        Box::new(move |entry| {
            let _ = tx.send(raw_entry(entry));
            WalkState::Continue
        })
    });
    rx.into_iter().collect()
}

/// One entry as the traversal reported it.
#[derive(Debug, Clone)]
pub enum RawEntry {
    /// An entry at `path`, a full path that starts with the root.
    Found { path: String, is_file: bool },
    /// An entry that could not be read, with the reason.
    Failed(String),
}

/// Turns what the traversal hands over into plain values.
pub fn raw_entry(entry: Result<DirEntry, ignore::Error>) -> (r: RawEntry)
    ensures
        entry is Ok <==> r is Found,
{
    match entry {
        Ok(e) => RawEntry::Found { path: entry_path(&e), is_file: entry_is_file(&e) },
        Err(err) => RawEntry::Failed(error_text(&err)),
    }
}

/// Where the part of `path` below `root` starts, where `path` lies under
/// `root` (component-wise: `root` itself, or `root` followed by a separator).
pub open spec fn root_end(root: Seq<u8>, path: Seq<u8>) -> Option<int> {
    if root.len() <= path.len() && path.subrange(0, root.len() as int) == root {
        if path.len() == root.len() {
            Some(root.len() as int)
        } else if root.len() > 0 && root.last() == 47 {
            Some(root.len() as int)
        } else if path[root.len() as int] == 47 {
            Some(root.len() + 1int)
        } else {
            None
        }
    } else {
        None
    }
}

/// The bytes of `path` relative to `root`, with no leading root fragment.
pub open spec fn relative_path(root: Seq<u8>, path: Seq<u8>) -> Option<Seq<u8>> {
    match root_end(root, path) {
        Some(k) => if is_char_boundary(path, k) {
            Some(path.subrange(k, path.len() as int))
        } else {
            None
        },
        None => None,
    }
}

/// The part of `path` below `root`.
pub fn strip_root(root: &str, path: &str) -> (r: Option<String>)
    ensures
        match relative_path(encode_utf8(root@), encode_utf8(path@)) {
            Some(rel) => r matches Some(s) && encode_utf8(s@) == rel,
            None => r is None,
        },
{
    let rb = root.as_bytes();
    let pb = path.as_bytes();
    let rn = rb.len();
    let pn = pb.len();
    if rn > pn {
        return None;
    }
    let mut i: usize = 0;
    while i < rn
        invariant
            rn == rb@.len() <= pn == pb@.len(),
            rb@ == encode_utf8(root@),
            pb@ == encode_utf8(path@),
            i <= rn,
            forall|j: int| 0 <= j < i ==> pb@[j] == rb@[j],
        decreases rn - i,
    {
        if pb[i] != rb[i] {
            assert(pb@.subrange(0, rn as int)[i as int] != rb@[i as int]);
            assert(pb@.subrange(0, rn as int) != rb@);
            return None;
        }
        i = i + 1;
    }
    assert(pb@.subrange(0, rn as int) =~= rb@);
    let k: usize = if pn == rn {
        rn
    } else if rn > 0 && rb[rn - 1] == 47 {
        rn
    } else if pb[rn] == 47 {
        rn + 1
    } else {
        return None;
    };
    if !path.is_char_boundary(k) {
        return None;
    }
    let (_, rest) = path.split_at(k);
    Some(rest.to_owned())
}

/// Whether an entry shows up in the output: a failure always does, a found
/// entry only where it is a regular file.
pub open spec fn emits(e: RawEntry) -> bool {
    match e {
        RawEntry::Found { is_file, .. } => is_file,
        RawEntry::Failed(_) => true,
    }
}

/// The entries that show up in the output, in traversal order.
pub open spec fn emitted(raws: Seq<RawEntry>) -> Seq<RawEntry>
    decreases raws.len(),
{
    if raws.len() == 0 {
        seq![]
    } else if emits(raws.last()) {
        emitted(raws.drop_last()).push(raws.last())
    } else {
        emitted(raws.drop_last())
    }
}

/// `item` is what the output holds for entry `e`: its path relative to `root`,
/// or a walk error with the failure's reason, or a walk error where the path
/// does not lie under the root.
pub open spec fn reports(root: Seq<u8>, e: RawEntry, item: Result<String, AppError>) -> bool {
    match e {
        RawEntry::Failed(msg) => match item {
            Err(AppError::Walk(m)) => m@ == msg@,
            _ => false,
        },
        RawEntry::Found { path, .. } => match relative_path(root, encode_utf8(path@)) {
            Some(rel) => match item {
                Ok(s) => encode_utf8(s@) == rel,
                _ => false,
            },
            None => match item {
                Err(AppError::Walk(m)) => m@ == "Path not under root"@,
                _ => false,
            },
        },
    }
}

/// `items` is the output of a traversal of `root` that reported `raws`.
pub open spec fn walk_output(root: Seq<u8>, raws: Seq<RawEntry>, items: Seq<Result<String, AppError>>) -> bool {
    &&& items.len() == emitted(raws).len()
    &&& forall|k: int| 0 <= k < items.len() ==> reports(root, #[trigger] emitted(raws)[k], items[k])
}

/// The output for the entries that a traversal of `root` reported: directories
/// and other non-files are dropped, files become root-relative paths, and
/// failures become errors in place.
pub fn collect_paths(root: &str, raws: &Vec<RawEntry>) -> (r: Vec<Result<String, AppError>>)
    ensures
        walk_output(encode_utf8(root@), raws@, r@),
{
    let ghost rb = encode_utf8(root@);
    let mut r: Vec<Result<String, AppError>> = Vec::new();
    let n = raws.len();
    let mut i: usize = 0;
    while i < n
        invariant
            n == raws@.len(),
            i <= n,
            rb == encode_utf8(root@),
            walk_output(rb, raws@.subrange(0, i as int), r@),
        decreases n - i,
    {
        let ghost prefix = raws@.subrange(0, i as int);
        let ghost next = raws@.subrange(0, i + 1);
        assert(next.drop_last() =~= prefix);
        assert(next.last() == raws@[i as int]);
        match &raws[i] {
            RawEntry::Failed(msg) => {
                r.push(Err(AppError::Walk(msg.clone())));
            },
            RawEntry::Found { path, is_file } => {
                if *is_file {
                    match strip_root(root, path.as_str()) {
                        Some(rel) => r.push(Ok(rel)),
                        None => {
                            proof {
                                reveal_strlit("Path not under root");
                            }
                            r.push(Err(AppError::Walk("Path not under root".to_owned())));
                        },
                    }
                }
            },
        }
        assert(walk_output(rb, next, r@)) by {
            if emits(raws@[i as int]) {
                assert(emitted(next) == emitted(prefix).push(raws@[i as int]));
            }
        }
        i = i + 1;
    }
    assert(raws@.subrange(0, n as int) =~= raws@);
    r
}

proof fn lemma_emitted_emits(raws: Seq<RawEntry>, k: int)
    requires
        0 <= k < emitted(raws).len(),
    ensures
        emits(emitted(raws)[k]),
    decreases raws.len(),
{
    if raws.len() > 0 {
        let prev = emitted(raws.drop_last());
        if k < prev.len() {
            lemma_emitted_emits(raws.drop_last(), k);
        }
    }
}

proof fn lemma_emitted_contains(raws: Seq<RawEntry>, i: int)
    requires
        0 <= i < raws.len(),
        emits(raws[i]),
    ensures
        emitted(raws).contains(raws[i]),
    decreases raws.len(),
{
    let prev = emitted(raws.drop_last());
    if i == raws.len() - 1 {
        assert(emitted(raws)[prev.len() as int] == raws[i]);
    } else {
        lemma_emitted_contains(raws.drop_last(), i);
        let k = choose|k: int| 0 <= k < prev.len() && prev[k] == raws[i];
        if emits(raws.last()) {
            assert(emitted(raws)[k] == raws[i]);
        }
    }
}

/// Discovery never outputs a directory or another non-file: every path in
/// the output comes from an entry that is a regular file.
pub proof fn lemma_only_regular_files(
    root: Seq<u8>,
    raws: Seq<RawEntry>,
    items: Seq<Result<String, AppError>>,
    k: int,
)
    requires
        walk_output(root, raws, items),
        0 <= k < items.len(),
        items[k] is Ok,
    ensures
        emitted(raws)[k] matches RawEntry::Found { is_file, .. } && is_file,
{
    lemma_emitted_emits(raws, k);
    assert(reports(root, emitted(raws)[k], items[k]));
}

/// Every path in the output, joined back onto the root (directly, or with one
/// separator), gives the full path of the entry it came from.
pub proof fn lemma_paths_rejoin_root(
    root: Seq<u8>,
    raws: Seq<RawEntry>,
    items: Seq<Result<String, AppError>>,
    k: int,
)
    requires
        walk_output(root, raws, items),
        0 <= k < items.len(),
        items[k] is Ok,
    ensures
        emitted(raws)[k] matches RawEntry::Found { path, .. } && {
            ||| encode_utf8(path@) == root + encode_utf8(items[k]->Ok_0@)
            ||| encode_utf8(path@) == root + seq![47u8] + encode_utf8(items[k]->Ok_0@)
        },
{
    let e = emitted(raws)[k];
    assert(reports(root, e, items[k]));
    if let RawEntry::Found { path, .. } = e {
        let p = encode_utf8(path@);
        let rel = encode_utf8(items[k]->Ok_0@);
        let j = root_end(root, p)->Some_0;
        assert(p.subrange(0, root.len() as int) == root);
        if j == root.len() {
            assert(p =~= root + rel);
        } else {
            assert(p =~= root + seq![47u8] + rel);
        }
    }
}

/// A failing entry does not stop the walk: each failure shows up as an error
/// with its reason, and every regular file that lies under the root shows up
/// as a path all the same.
pub proof fn lemma_failures_reported(
    root: Seq<u8>,
    raws: Seq<RawEntry>,
    items: Seq<Result<String, AppError>>,
    i: int,
)
    requires
        walk_output(root, raws, items),
        0 <= i < raws.len(),
    ensures
        raws[i] matches RawEntry::Failed(msg) ==> exists|k: int|
            0 <= k < items.len() && (#[trigger] items[k] matches Err(AppError::Walk(m)) && m@ == msg@),
        raws[i] matches RawEntry::Found { path, is_file } ==> (is_file && relative_path(
            root,
            encode_utf8(path@),
        ) is Some ==> exists|k: int| 0 <= k < items.len() && (#[trigger] items[k]) is Ok),
{
    if emits(raws[i]) {
        lemma_emitted_contains(raws, i);
        let k = choose|k: int| 0 <= k < emitted(raws).len() && emitted(raws)[k] == raws[i];
        assert(reports(root, emitted(raws)[k], items[k]));
    }
}

/// `path` lies in the top-level build-output directory.
pub open spec fn in_build_output(path: Seq<u8>) -> bool {
    path.len() >= 7 && path.subrange(0, 7) == seq![116u8, 97, 114, 103, 101, 116, 47]
}

fn starts_with_build_output(p: &str) -> (r: bool)
    ensures
        r == in_build_output(encode_utf8(p@)),
{
    let b = p.as_bytes();
    let prefix: [u8; 7] = [116u8, 97, 114, 103, 101, 116, 47];
    if b.len() < 7 {
        return false;
    }
    let mut i: usize = 0;
    while i < 7
        invariant
            b@.len() >= 7,
            b@ == encode_utf8(p@),
            prefix@ == seq![116u8, 97, 114, 103, 101, 116, 47],
            i <= 7,
            forall|j: int| 0 <= j < i ==> b@[j] == prefix@[j],
        decreases 7 - i,
    {
        if b[i] != prefix[i] {
            assert(b@.subrange(0, 7)[i as int] != prefix@[i as int]);
            assert(b@.subrange(0, 7) != prefix@);
            return false;
        }
        i = i + 1;
    }
    assert(b@.subrange(0, 7) =~= prefix@);
    true
}

/// The paths that the picker offers: outside "all" mode, paths under the
/// top-level `target/` directory are left out; the rest keep their order.
pub fn visible_paths(paths: Vec<String>, all: bool) -> (r: Vec<String>)
    ensures
        all ==> r@ == paths@,
        !all ==> r@ == paths@.filter(|p: String| !in_build_output(encode_utf8(p@))),
{
    if all {
        return paths;
    }
    let ghost keep = |p: String| !in_build_output(encode_utf8(p@));
    let mut r: Vec<String> = Vec::new();
    let n = paths.len();
    let mut i: usize = 0;
    while i < n
        invariant
            n == paths@.len(),
            i <= n,
            keep == (|p: String| !in_build_output(encode_utf8(p@))),
            r@ == paths@.subrange(0, i as int).filter(keep),
        decreases n - i,
    {
        proof {
            let next = paths@.subrange(0, i + 1);
            assert(next.drop_last() =~= paths@.subrange(0, i as int));
            reveal(Seq::filter);
        }
        if !starts_with_build_output(paths[i].as_str()) {
            r.push(paths[i].clone());
        }
        i = i + 1;
    }
    assert(paths@.subrange(0, n as int) =~= paths@);
    r
}

/// Walks a directory tree in parallel and reports its regular files.
pub struct FileWalker {
    root: String,
    options: WalkOptions,
    walker: WalkParallel,
}

impl FileWalker {
    /// Sets up a traversal of `config.root` as `walk_options(config.all)` says.
    pub fn new(config: &Config) -> (r: Self)
        ensures
            r.root()@ == config.root@,
            r.options().standard_filters == !config.all,
            r.options().require_git == false,
            r.options().follow_links == true,
    {
        let options = walk_options(config.all);
        let mut builder = builder_new(config.root.as_str());
        builder_standard_filters(&mut builder, options.standard_filters);
        builder_require_git(&mut builder, options.require_git);
        builder_follow_links(&mut builder, options.follow_links);
        let walker = builder_build_parallel(&builder);
        FileWalker { root: config.root.clone(), options, walker }
    }

    pub closed spec fn root(&self) -> String {
        self.root
    }

    pub closed spec fn options(&self) -> WalkOptions {
        self.options
    }

    /// Runs the traversal: one item per regular file (its path relative to
    /// the root) and per unreadable entry (an error), in no fixed order.
    pub fn into_paths(self) -> (r: std::vec::IntoIter<Result<String, AppError>>)
        ensures
            exists|raws: Seq<RawEntry>|
                #[trigger] walk_output(encode_utf8(self.root()@), raws, r.remaining()),
    {
        let raws = run_walk(self.walker);
        let items = collect_paths(self.root.as_str(), &raws);
        let ghost seen = items@;
        assert(walk_output(encode_utf8(self.root@), raws@, seen));
        let r = items.into_iter();
        proof {
            broadcast use vstd::std_specs::vec::axiom_spec_into_iter;
            assert(r.remaining() == seen);
            assert(walk_output(encode_utf8(self.root()@), raws@, r.remaining()));
        }
        r
    }
}

} // verus!
