//! Turning the command-line arguments, together with what was found on disk
//! at each given path, into the list of files to upload and the settings to
//! upload them with.
//!
//! Looking at the disk is left to the caller: for each given path it reports
//! a [`PathObservation`] (for a directory, every entry of a recursive walk
//! that does not follow symbolic links, the directory itself excluded), and
//! the functions here decide what becomes of it.

use vstd::prelude::*;
use vstd::utf8::{decode_utf8, valid_utf8};

use crate::cli::Args;
use crate::clock::{stamp_text, utc_stamp, UtcTime};
use crate::error::{UploadError, UploadErrorView};
use crate::paths::{file_name, file_name_of, relative_part, relative_to, utf8_text};
use crate::text::{decimal, push_decimal, push_str, string_from_chars, trim_end_char, trim_trailing};

verus! {

/// A single file to be uploaded: where it is on disk, the key it is stored
/// under in the bucket, and its size in bytes.
#[derive(Debug)]
pub struct UploadItem {
    pub local_path: Vec<u8>,
    pub remote_key: String,
    pub size: u64,
}

/// The mathematical value of an [`UploadItem`].
pub struct ItemView {
    pub local_path: Seq<u8>,
    pub remote_key: Seq<char>,
    pub size: u64,
}

impl View for UploadItem {
    type V = ItemView;

    open spec fn view(&self) -> ItemView {
        ItemView { local_path: self.local_path@, remote_key: self.remote_key@, size: self.size }
    }
}

pub open spec fn items_view(items: Seq<UploadItem>) -> Seq<ItemView> {
    items.map_values(|i: UploadItem| i@)
}

/// Resolved and validated upload settings. `timeout` is in seconds.
pub struct UploadConfig {
    pub endpoint: String,
    pub bucket: String,
    pub access_key: String,
    pub secret_key: String,
    pub region: String,
    pub prefix: String,
    pub timeout: Option<u64>,
    pub concurrency: usize,
    pub items: Vec<UploadItem>,
}

/// One entry met while walking a directory: its path, whether it is a
/// regular file (symbolic links are not), and the outcome of reading its
/// size (the error's message when that failed).
pub struct WalkEntry {
    pub path: Vec<u8>,
    pub is_file: bool,
    pub size: Result<u64, String>,
}

/// One step of a directory walk: an entry, or a failure (with its message),
/// after which the walk is not looked at any further.
pub enum WalkStep {
    Failed(String),
    Entry(WalkEntry),
}

/// What was found at a path given on the command line.
pub enum PathObservation {
    /// Nothing exists there.
    Missing,
    /// A regular file, with the outcome of reading its size.
    File { size: Result<u64, String> },
    /// A directory, with the steps of walking it.
    Dir { walk: Vec<WalkStep> },
    /// Something that is neither a file nor a directory.
    Other,
}

pub struct WalkEntryView {
    pub path: Seq<u8>,
    pub is_file: bool,
    pub size: Result<u64, Seq<char>>,
}

pub enum WalkStepView {
    Failed(Seq<char>),
    Entry(WalkEntryView),
}

pub enum PathObservationView {
    Missing,
    File { size: Result<u64, Seq<char>> },
    Dir { walk: Seq<WalkStepView> },
    Other,
}

pub open spec fn size_view(r: Result<u64, String>) -> Result<u64, Seq<char>> {
    match r {
        Ok(n) => Ok(n),
        Err(m) => Err(m@),
    }
}

impl View for WalkEntry {
    type V = WalkEntryView;

    open spec fn view(&self) -> WalkEntryView {
        WalkEntryView { path: self.path@, is_file: self.is_file, size: size_view(self.size) }
    }
}

impl View for WalkStep {
    type V = WalkStepView;

    open spec fn view(&self) -> WalkStepView {
        match self {
            WalkStep::Failed(m) => WalkStepView::Failed(m@),
            WalkStep::Entry(e) => WalkStepView::Entry(e@),
        }
    }
}

pub open spec fn walk_view(walk: Seq<WalkStep>) -> Seq<WalkStepView> {
    walk.map_values(|w: WalkStep| w@)
}

impl View for PathObservation {
    type V = PathObservationView;

    open spec fn view(&self) -> PathObservationView {
        match self {
            PathObservation::Missing => PathObservationView::Missing,
            PathObservation::File { size } => PathObservationView::File { size: size_view(*size) },
            PathObservation::Dir { walk } => PathObservationView::Dir { walk: walk_view(walk@) },
            PathObservation::Other => PathObservationView::Other,
        }
    }
}

pub open spec fn observations_view(obs: Seq<PathObservation>) -> Seq<PathObservationView> {
    obs.map_values(|o: PathObservation| o@)
}

pub open spec fn paths_view(paths: Seq<Vec<u8>>) -> Seq<Seq<u8>> {
    paths.map_values(|p: Vec<u8>| p@)
}

/// The key of a file stored `name` below `prefix`: `{prefix}/{name}`.
pub open spec fn remote_key_for(prefix: Seq<char>, name: Seq<char>) -> Seq<char> {
    prefix + seq!['/'] + name
}

/// What one walked entry contributes: nothing for anything but a regular
/// file; for a file whose path below the walked directory is valid UTF-8
/// and whose size was read, an item keyed by that relative path below the
/// prefix; otherwise the error that stops the walk.
pub open spec fn entry_outcome(prefix: Seq<char>, base: Seq<u8>, e: WalkEntryView) -> Result<
    Option<ItemView>,
    UploadErrorView,
> {
    if !e.is_file {
        Ok(None)
    } else {
        match relative_part(e.path, base) {
            None => Err(UploadErrorView::InvalidPath(e.path)),
            Some(rel) => if !valid_utf8(rel) {
                Err(UploadErrorView::InvalidPath(e.path))
            } else {
                match e.size {
                    Err(m) => Err(UploadErrorView::DirRead { path: e.path, source: m }),
                    Ok(n) => Ok(
                        Some(
                            ItemView {
                                local_path: e.path,
                                remote_key: remote_key_for(prefix, decode_utf8(rel)),
                                size: n,
                            },
                        ),
                    ),
                }
            },
        }
    }
}

pub open spec fn option_seq<A>(o: Option<A>) -> Seq<A> {
    match o {
        Some(a) => seq![a],
        None => seq![],
    }
}

/// Walking the directory `base`: the items found, in walk order, up to the
/// first failure, and that failure if there is one.
pub open spec fn walk_outcome(prefix: Seq<char>, base: Seq<u8>, walk: Seq<WalkStepView>) -> (
    Seq<ItemView>,
    Option<UploadErrorView>,
)
    decreases walk.len(),
{
    if walk.len() == 0 {
        (seq![], None)
    } else {
        match walk[0] {
            WalkStepView::Failed(m) => (
                seq![],
                Some(UploadErrorView::DirRead { path: base, source: m }),
            ),
            WalkStepView::Entry(e) => match entry_outcome(prefix, base, e) {
                Err(err) => (seq![], Some(err)),
                Ok(found) => {
                    let rest = walk_outcome(prefix, base, walk.drop_first());
                    (option_seq(found) + rest.0, rest.1)
                },
            },
        }
    }
}

/// What one path given on the command line contributes: for a file, one
/// item keyed by its file name below the prefix; for a directory, what
/// walking it gives; otherwise (or when the file name is not valid UTF-8,
/// or the size could not be read) the error.
pub open spec fn path_outcome(prefix: Seq<char>, path: Seq<u8>, obs: PathObservationView) -> (
    Seq<ItemView>,
    Option<UploadErrorView>,
) {
    match obs {
        PathObservationView::Missing => (seq![], Some(UploadErrorView::PathNotFound(path))),
        PathObservationView::File { size } => match utf8_file_name(path) {
            None => (seq![], Some(UploadErrorView::InvalidPath(path))),
            Some(name) => match size {
                Err(m) => (seq![], Some(UploadErrorView::PathNotReadable { path, source: m })),
                Ok(n) => (
                    seq![
                        ItemView {
                            local_path: path,
                            remote_key: remote_key_for(prefix, name),
                            size: n,
                        },
                    ],
                    None,
                ),
            },
        },
        PathObservationView::Dir { walk } => walk_outcome(prefix, path, walk),
        PathObservationView::Other => (seq![], Some(UploadErrorView::InvalidPath(path))),
    }
}

/// All the given paths in order: the items collected until the first
/// error, and that error if there is one.
pub open spec fn paths_outcome(
    prefix: Seq<char>,
    paths: Seq<Seq<u8>>,
    obs: Seq<PathObservationView>,
) -> (Seq<ItemView>, Option<UploadErrorView>)
    decreases paths.len(),
{
    if paths.len() == 0 || obs.len() == 0 {
        (seq![], None)
    } else {
        let first = path_outcome(prefix, paths[0], obs[0]);
        if first.1 is Some {
            first
        } else {
            let rest = paths_outcome(prefix, paths.drop_first(), obs.drop_first());
            (first.0 + rest.0, rest.1)
        }
    }
}

/// The file name of `path`, when it has one and it is valid UTF-8.
pub open spec fn utf8_file_name(path: Seq<u8>) -> Option<Seq<char>> {
    match file_name_of(path) {
        Some(n) => if valid_utf8(n) {
            Some(decode_utf8(n))
        } else {
            None
        },
        None => None,
    }
}

/// Why resolving fails, if it does: the first error met, or, when there is
/// none but nothing was found, that there are no files. Neither depends on
/// the prefix (see [`lemma_outcome_prefix_free`]), so any prefix may be
/// used to compute it.
pub open spec fn resolve_failure(paths: Seq<Seq<u8>>, obs: Seq<PathObservationView>) -> Option<
    UploadErrorView,
> {
    let o = paths_outcome(seq![], paths, obs);
    if o.1 is Some {
        o.1
    } else if o.0.len() == 0 {
        Some(UploadErrorView::NoFiles)
    } else {
        None
    }
}

/// The first characters of a made-up prefix.
pub open spec fn default_prefix_head() -> Seq<char> {
    seq!['d', 'o', 'c', 'k', 'e', 'r', '/']
}

/// Whether `prefix` is a made-up one: `docker/` followed by the compact
/// timestamp of some reading of the UTC clock.
pub open spec fn is_default_prefix(prefix: Seq<char>) -> bool {
    exists|t: UtcTime| t.valid() && prefix == default_prefix_head() + #[trigger] stamp_text(t)
}

/// The prefix that resolving settles on: a given one without its trailing
/// slashes, or else `docker/` followed by the current UTC time as
/// `YYYYMMDDhhmmss`.
pub open spec fn prefix_rule(given: Option<String>, prefix: Seq<char>) -> bool {
    match given {
        Some(p) => prefix == trim_trailing(p@, '/'),
        None => is_default_prefix(prefix),
    }
}

proof fn lemma_walk_prefix_free(p1: Seq<char>, p2: Seq<char>, base: Seq<u8>, walk: Seq<WalkStepView>)
    ensures
        walk_outcome(p1, base, walk).1 == walk_outcome(p2, base, walk).1,
        walk_outcome(p1, base, walk).0.len() == walk_outcome(p2, base, walk).0.len(),
    decreases walk.len(),
{
    if walk.len() > 0 {
        lemma_walk_prefix_free(p1, p2, base, walk.drop_first());
    }
}

/// Which error resolving ends in, and how many items it finds, do not
/// depend on the prefix the keys are built with.
pub proof fn lemma_outcome_prefix_free(
    p1: Seq<char>,
    p2: Seq<char>,
    paths: Seq<Seq<u8>>,
    obs: Seq<PathObservationView>,
)
    ensures
        paths_outcome(p1, paths, obs).1 == paths_outcome(p2, paths, obs).1,
        paths_outcome(p1, paths, obs).0.len() == paths_outcome(p2, paths, obs).0.len(),
    decreases paths.len(),
{
    if paths.len() > 0 && obs.len() > 0 {
        match obs[0] {
            PathObservationView::Dir { walk } => lemma_walk_prefix_free(p1, p2, paths[0], walk),
            _ => {},
        }
        lemma_outcome_prefix_free(p1, p2, paths.drop_first(), obs.drop_first());
    }
}

/// A fresh copy of `b`.
fn copy_bytes(b: &[u8]) -> (out: Vec<u8>)
    ensures
        out@ == b@,
{
    vstd::slice::slice_to_vec(b)
}

/// `{prefix}/{name}`.
fn make_key(prefix: &str, name: &str) -> (key: String)
    ensures
        key@ == remote_key_for(prefix@, name@),
{
    let mut cs: Vec<char> = Vec::new();
    push_str(&mut cs, prefix);
    cs.push('/');
    push_str(&mut cs, name);
    assert(cs@ =~= remote_key_for(prefix@, name@));
    string_from_chars(cs.as_slice())
}

proof fn lemma_items_view_push(items: Seq<UploadItem>, x: UploadItem)
    ensures
        items_view(items.push(x)) == items_view(items).push(x@),
{
    assert(items_view(items.push(x)) =~= items_view(items).push(x@));
}

/// Require that a path's final component is valid UTF-8, and give it as
/// text; otherwise the path is invalid.
pub fn require_utf8_filename(path: &[u8]) -> (res: Result<String, UploadError>)
    ensures
        match res {
            Ok(name) => utf8_file_name(path@) == Some(name@),
            Err(e) => utf8_file_name(path@) is None && e@ == UploadErrorView::InvalidPath(path@),
        },
{
    match file_name(path) {
        Some(n) => match utf8_text(n.as_slice()) {
            Some(text) => Ok(text),
            None => Err(UploadError::InvalidPath(copy_bytes(path))),
        },
        None => Err(UploadError::InvalidPath(copy_bytes(path))),
    }
}

/// Collects the regular files found by walking the directory `base` into
/// `items`, keyed by their path below `base` under `prefix`, in walk order.
/// Stops at the first failure: a failed walk step, a relative path that is
/// not valid UTF-8, or a size that could not be read; the items collected
/// before it stay.
pub fn collect_dir_files(
    base: &[u8],
    prefix: &str,
    walk: &Vec<WalkStep>,
    items: &mut Vec<UploadItem>,
) -> (res: Result<(), UploadError>)
    ensures
        items_view(final(items)@) == items_view(old(items)@) + walk_outcome(
            prefix@,
            base@,
            walk_view(walk@),
        ).0,
        match walk_outcome(prefix@, base@, walk_view(walk@)).1 {
            None => res is Ok,
            Some(e) => res matches Err(x) && x@ == e,
        },
{
    let ghost w = walk_view(walk@);
    let ghost start = items_view(items@);
    let mut i: usize = 0;
    assert(w.skip(0) =~= w);
    while i < walk.len()
        invariant
            i <= walk@.len(),
            w == walk_view(walk@),
            start == items_view(old(items)@),
            items_view(items@) + walk_outcome(prefix@, base@, w.skip(i as int)).0 == start
                + walk_outcome(prefix@, base@, w).0,
            walk_outcome(prefix@, base@, w.skip(i as int)).1 == walk_outcome(prefix@, base@, w).1,
        decreases walk@.len() - i,
    {
        let ghost rest = w.skip(i as int);
        assert(rest[0] == walk@[i as int]@);
        assert(rest.drop_first() =~= w.skip(i + 1));
        match &walk[i] {
            WalkStep::Failed(m) => {
                return Err(UploadError::DirRead { path: copy_bytes(base), source: m.clone() });
            },
            WalkStep::Entry(e) => {
                if e.is_file {
                    let rel = relative_to(e.path.as_slice(), base);
                    match rel {
                        None => {
                            return Err(UploadError::InvalidPath(copy_bytes(e.path.as_slice())));
                        },
                        Some(rel) => {
                            match utf8_text(rel.as_slice()) {
                                None => {
                                    return Err(
                                        UploadError::InvalidPath(copy_bytes(e.path.as_slice())),
                                    );
                                },
                                Some(rel_text) => {
                                    let key = make_key(prefix, rel_text.as_str());
                                    match &e.size {
                                        Err(m) => {
                                            return Err(
                                                UploadError::DirRead {
                                                    path: copy_bytes(e.path.as_slice()),
                                                    source: m.clone(),
                                                },
                                            );
                                        },
                                        Ok(n) => {
                                            let item = UploadItem {
                                                local_path: copy_bytes(e.path.as_slice()),
                                                remote_key: key,
                                                size: *n,
                                            };
                                            proof {
                                                lemma_items_view_push(items@, item);
                                            }
                                            items.push(item);
                                        },
                                    }
                                },
                            }
                        },
                    }
                }
            },
        }
        i = i + 1;
    }
    Ok(())
}

/// Adds what one path given on the command line contributes (see
/// [`path_outcome`]) to `items`.
pub fn add_path(
    path: &[u8],
    observed: &PathObservation,
    prefix: &str,
    items: &mut Vec<UploadItem>,
) -> (res: Result<(), UploadError>)
    ensures
        items_view(final(items)@) == items_view(old(items)@) + path_outcome(
            prefix@,
            path@,
            observed@,
        ).0,
        match path_outcome(prefix@, path@, observed@).1 {
            None => res is Ok,
            Some(e) => res matches Err(x) && x@ == e,
        },
        match (observed@, file_name_of(path@)) {
            (PathObservationView::File { size: Ok(n) }, Some(name)) => valid_utf8(name) ==> {
                &&& res is Ok
                &&& items_view(final(items)@) == items_view(old(items)@).push(
                    ItemView {
                        local_path: path@,
                        remote_key: prefix@ + seq!['/'] + decode_utf8(name),
                        size: n,
                    },
                )
            },
            _ => true,
        },
{
    match observed {
        PathObservation::Missing => Err(UploadError::PathNotFound(copy_bytes(path))),
        PathObservation::File { size } => {
            let name = require_utf8_filename(path)?;
            match size {
                Err(m) => Err(
                    UploadError::PathNotReadable { path: copy_bytes(path), source: m.clone() },
                ),
                Ok(n) => {
                    let item = UploadItem {
                        local_path: copy_bytes(path),
                        remote_key: make_key(prefix, name.as_str()),
                        size: *n,
                    };
                    proof {
                        lemma_items_view_push(items@, item);
                    }
                    items.push(item);
                    Ok(())
                },
            }
        },
        PathObservation::Dir { walk } => collect_dir_files(path, prefix, walk, items),
        PathObservation::Other => Err(UploadError::InvalidPath(copy_bytes(path))),
    }
}


/// The made-up prefix for a timestamp: `docker/{stamp}`.
pub fn default_prefix(stamp: &str) -> (prefix: String)
    ensures
        prefix@ == default_prefix_head() + stamp@,
{
    let mut cs: Vec<char> = Vec::new();
    cs.push('d');
    cs.push('o');
    cs.push('c');
    cs.push('k');
    cs.push('e');
    cs.push('r');
    cs.push('/');
    push_str(&mut cs, stamp);
    assert(cs@ =~= default_prefix_head() + stamp@);
    string_from_chars(cs.as_slice())
}

/// The prefix to store files under: the given one without its trailing
/// slashes, or else `docker/` followed by the current UTC time; when no
/// prefix is given and the clock cannot be read as a UTC time, the clock
/// error.
pub fn resolve_prefix(given: &Option<String>) -> (res: Result<String, UploadError>)
    ensures
        match res {
            Ok(prefix) => prefix_rule(*given, prefix@),
            Err(e) => given is None && e@ == UploadErrorView::ClockUnreadable,
        },
{
    match given {
        Some(p) => Ok(trim_end_char(p.as_str(), '/')),
        None => match utc_stamp() {
            Some(stamp) => Ok(default_prefix(stamp.as_str())),
            None => Err(UploadError::ClockUnreadable),
        },
    }
}

/// The settings of `config` are those of `args`, with `prefix` and `items`.
pub open spec fn settings_from(args: Args, config: UploadConfig) -> bool {
    &&& config.endpoint == args.endpoint
    &&& config.bucket == args.bucket
    &&& config.access_key == args.access_key
    &&& config.secret_key == args.secret_key
    &&& config.region == args.region
    &&& config.timeout == args.timeout
    &&& config.concurrency == args.concurrency
}

/// Assembles the settings once every path has been looked at: there must
/// be at least one file to upload.
pub fn finish_config(args: Args, prefix: String, items: Vec<UploadItem>) -> (res: Result<
    UploadConfig,
    UploadError,
>)
    ensures
        match res {
            Ok(c) => {
                &&& items@.len() > 0
                &&& settings_from(args, c)
                &&& c.prefix == prefix
                &&& c.items == items
            },
            Err(e) => items@.len() == 0 && e@ == UploadErrorView::NoFiles,
        },
{
    if items.len() == 0 {
        return Err(UploadError::NoFiles);
    }
    let Args { paths: _, prefix: _, endpoint, bucket, access_key, secret_key, region, timeout, concurrency } =
        args;
    Ok(UploadConfig { endpoint, bucket, access_key, secret_key, region, prefix, timeout, concurrency, items })
}

/// Resolves the arguments into validated settings, given what was found at
/// each path (`observed[i]` at `args.paths[i]`).
///
/// The prefix is the given one without trailing slashes, or `docker/`
/// followed by the current UTC time. Each file becomes one item keyed
/// `{prefix}/{file name}`; each directory contributes every regular file
/// below it, keyed `{prefix}/{path below the directory}`, in walk order.
/// The first problem met ends resolving with its error; finding no file at
/// all is an error too. When no prefix is given and the clock cannot be read,
/// resolving ends at once with the clock error.
pub fn resolve(args: Args, observed: Vec<PathObservation>) -> (res: Result<UploadConfig, UploadError>)
    requires
        observed@.len() == args.paths@.len(),
    ensures
        match res {
            Ok(c) => {
                &&& resolve_failure(paths_view(args.paths@), observations_view(observed@)) is None
                &&& prefix_rule(args.prefix, c.prefix@)
                &&& items_view(c.items@) == paths_outcome(
                    c.prefix@,
                    paths_view(args.paths@),
                    observations_view(observed@),
                ).0
                &&& settings_from(args, c)
            },
            Err(e) => {
                ||| resolve_failure(paths_view(args.paths@), observations_view(observed@)) == Some(
                    e@,
                )
                ||| args.prefix is None && e@ == UploadErrorView::ClockUnreadable
            },
        },
{
    let ghost pv = paths_view(args.paths@);
    let ghost ov = observations_view(observed@);
    let prefix = resolve_prefix(&args.prefix)?;
    let mut items: Vec<UploadItem> = Vec::new();
    let mut i: usize = 0;
    assert(pv.skip(0) =~= pv);
    assert(ov.skip(0) =~= ov);
    proof {
        lemma_outcome_prefix_free(seq![], prefix@, pv, ov);
    }
    while i < args.paths.len()
        invariant
            i <= args.paths@.len(),
            observed@.len() == args.paths@.len(),
            pv == paths_view(args.paths@),
            ov == observations_view(observed@),
            items_view(items@) + paths_outcome(prefix@, pv.skip(i as int), ov.skip(i as int)).0
                == paths_outcome(prefix@, pv, ov).0,
            paths_outcome(prefix@, pv.skip(i as int), ov.skip(i as int)).1 == paths_outcome(
                prefix@,
                pv,
                ov,
            ).1,
            paths_outcome(prefix@, pv, ov).1 == paths_outcome(seq![], pv, ov).1,
            paths_outcome(prefix@, pv, ov).0.len() == paths_outcome(seq![], pv, ov).0.len(),
        decreases args.paths@.len() - i,
    {
        assert(pv.skip(i as int)[0] == args.paths@[i as int]@);
        assert(ov.skip(i as int)[0] == observed@[i as int]@);
        assert(pv.skip(i as int).drop_first() =~= pv.skip(i + 1));
        assert(ov.skip(i as int).drop_first() =~= ov.skip(i + 1));
        let step = add_path(args.paths[i].as_slice(), &observed[i], prefix.as_str(), &mut items);
        if let Err(e) = step {
            assert(path_outcome(prefix@, pv.skip(i as int)[0], ov.skip(i as int)[0]).1 == Some(e@));
            assert(paths_outcome(prefix@, pv.skip(i as int), ov.skip(i as int)).1 == Some(e@));
            return Err(e);
        }
        i = i + 1;
    }
    assert(pv.skip(i as int).len() == 0);
    assert(items_view(items@) =~= paths_outcome(prefix@, pv, ov).0);
    let ghost found = items@;
    let res = finish_config(args, prefix, items);
    proof {
        if res is Ok {
            assert(items_view(found) == paths_outcome(prefix@, pv, ov).0);
        }
    }
    res
}

/// std's `Debug` text for a string slice (`format!("{:?}", s)`): the text
/// between double quotes, with special characters escaped.
pub uninterp spec fn debug_text(s: Seq<char>) -> Seq<char>;

/// A character that std's `Debug` for `str` writes as itself: printable
/// ASCII other than the double quote, the single quote and the backslash.
pub open spec fn plain_debug_char(c: char) -> bool {
    ' ' <= c <= '~' && c != '"' && c != '\'' && c != '\\'
}

/// Formats `s` with std's `Debug` for `str`. Trusted: the result is
/// [`debug_text`] of `s`, which depends on `s` alone; and text made only of
/// characters that `char::escape_debug` leaves as they are comes out between
/// double quotes, unchanged.
#[verifier::external_body]
fn debug_quoted(s: &str) -> (out: String)
    ensures
        out@ == debug_text(s@),
        (forall|i: int| 0 <= i < s@.len() ==> plain_debug_char(#[trigger] s@[i])) ==> out@
            == seq!['"'] + s@ + seq!['"'],
{
    format!("{:?}", s)
}

/// How an optional timeout of whole seconds reads in debug output.
pub open spec fn timeout_debug_text(timeout: Option<u64>) -> Seq<char> {
    match timeout {
        None => "None"@,
        Some(secs) => "Some("@ + decimal(secs as nat) + "s)"@,
    }
}

/// The debug text of settings with the given fields. The credentials are
/// not among them: both show as `"***"`, and the items only by their count.
pub open spec fn config_debug_text(
    endpoint: Seq<char>,
    bucket: Seq<char>,
    region: Seq<char>,
    prefix: Seq<char>,
    timeout: Option<u64>,
    concurrency: usize,
    item_count: nat,
) -> Seq<char> {
    "UploadConfig { endpoint: "@ + debug_text(endpoint) + ", bucket: "@ + debug_text(bucket)
        + ", access_key: "@ + debug_text("***"@) + ", secret_key: "@ + debug_text("***"@)
        + ", region: "@ + debug_text(region) + ", prefix: "@ + debug_text(prefix)
        + ", timeout: "@ + timeout_debug_text(timeout) + ", concurrency: "@ + decimal(
        concurrency as nat,
    ) + ", items: "@ + decimal(item_count) + " }"@
}

impl UploadConfig {
    /// The debug text of these settings, with both credentials shown as
    /// `"***"` so that they cannot leak into logs.
    pub open spec fn debug_view(&self) -> Seq<char> {
        config_debug_text(
            self.endpoint@,
            self.bucket@,
            self.region@,
            self.prefix@,
            self.timeout,
            self.concurrency,
            self.items@.len(),
        )
    }

    /// The settings as `UploadConfig { field: value, ... }`, in the layout
    /// of std's `Debug` for structs, with the access key and the secret key
    /// replaced by `"***"` and the items by their count.
    pub fn debug_string(&self) -> (s: String)
        ensures
            s@ == self.debug_view(),
    {
        let mut cs: Vec<char> = Vec::new();
        push_str(&mut cs, "UploadConfig { endpoint: ");
        push_str(&mut cs, debug_quoted(self.endpoint.as_str()).as_str());
        push_str(&mut cs, ", bucket: ");
        push_str(&mut cs, debug_quoted(self.bucket.as_str()).as_str());
        push_str(&mut cs, ", access_key: ");
        push_str(&mut cs, debug_quoted("***").as_str());
        push_str(&mut cs, ", secret_key: ");
        push_str(&mut cs, debug_quoted("***").as_str());
        push_str(&mut cs, ", region: ");
        push_str(&mut cs, debug_quoted(self.region.as_str()).as_str());
        push_str(&mut cs, ", prefix: ");
        push_str(&mut cs, debug_quoted(self.prefix.as_str()).as_str());
        push_str(&mut cs, ", timeout: ");
        match self.timeout {
            None => push_str(&mut cs, "None"),
            Some(secs) => {
                push_str(&mut cs, "Some(");
                push_decimal(&mut cs, secs);
                push_str(&mut cs, "s)");
            },
        }
        push_str(&mut cs, ", concurrency: ");
        push_decimal(&mut cs, self.concurrency as u64);
        push_str(&mut cs, ", items: ");
        push_decimal(&mut cs, self.items.len() as u64);
        push_str(&mut cs, " }");
        assert(cs@ =~= self.debug_view());
        string_from_chars(cs.as_slice())
    }
}

} // verus!
