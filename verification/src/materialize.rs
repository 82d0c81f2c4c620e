use crate::errors::FontError;
use crate::manifest::{prefixed, FontManifest, FontManifestView, ManifestFileRefView, ManifestFileView};
use crate::paths::{parent_of, parent_spec};
use crate::text::join_with_slash;
use vstd::prelude::*;

verus! {

/// One pending inline write: the destination path, its parent directory,
/// and the bytes to write there.
pub struct InlineOp {
    pub path: String,
    pub parent: String,
    pub contents: String,
}

#[verifier::ext_equal]
pub struct InlineOpView {
    pub path: Seq<char>,
    pub parent: Seq<char>,
    pub contents: Seq<char>,
}

impl View for InlineOp {
    type V = InlineOpView;

    open spec fn view(&self) -> InlineOpView {
        InlineOpView { path: self.path@, parent: self.parent@, contents: self.contents@ }
    }
}

/// One pending reference download: the source url, the filename as reported
/// to the progress sink, the destination path and its parent directory.
pub struct RefOp {
    pub url: String,
    pub filename: String,
    pub path: String,
    pub parent: String,
}

#[verifier::ext_equal]
pub struct RefOpView {
    pub url: Seq<char>,
    pub filename: Seq<char>,
    pub path: Seq<char>,
    pub parent: Seq<char>,
}

impl View for RefOp {
    type V = RefOpView;

    open spec fn view(&self) -> RefOpView {
        RefOpView {
            url: self.url@,
            filename: self.filename@,
            path: self.path@,
            parent: self.parent@,
        }
    }
}

/// The write planned for one inline entry, when its destination
/// `"{base}/{filename}"` has a parent component.
pub open spec fn inline_op_of(base: Seq<char>, f: ManifestFileView) -> Option<InlineOpView> {
    match parent_spec(prefixed(base, f.filename)) {
        Some(d) => Some(
            InlineOpView { path: prefixed(base, f.filename), parent: d, contents: f.contents },
        ),
        None => None,
    }
}

/// The download planned for one reference entry, when its destination
/// `"{base}/{filename}"` has a parent component.
pub open spec fn ref_op_of(base: Seq<char>, f: ManifestFileRefView) -> Option<RefOpView> {
    match parent_spec(prefixed(base, f.filename)) {
        Some(d) => Some(
            RefOpView {
                url: f.url,
                filename: f.filename,
                path: prefixed(base, f.filename),
                parent: d,
            },
        ),
        None => None,
    }
}

pub open spec fn all_inline_ops_ok(base: Seq<char>, files: Seq<ManifestFileView>) -> bool {
    forall|i: int| 0 <= i < files.len() ==> inline_op_of(base, #[trigger] files[i]) is Some
}

pub open spec fn all_ref_ops_ok(base: Seq<char>, refs: Seq<ManifestFileRefView>) -> bool {
    forall|i: int| 0 <= i < refs.len() ==> ref_op_of(base, #[trigger] refs[i]) is Some
}

/// The inline write plan of a manifest: one op per `files` entry, in
/// manifest order; all-or-nothing.
pub open spec fn inline_plan_spec(m: FontManifestView, base: Seq<char>) -> Option<
    Seq<InlineOpView>,
> {
    if all_inline_ops_ok(base, m.files) {
        Some(Seq::new(m.files.len(), |i: int| inline_op_of(base, m.files[i]).unwrap()))
    } else {
        None
    }
}

/// The download plan of a manifest: one op per `fileRefs` entry, in
/// manifest order; all-or-nothing.
pub open spec fn ref_plan_spec(m: FontManifestView, base: Seq<char>) -> Option<Seq<RefOpView>> {
    if all_ref_ops_ok(base, m.file_refs) {
        Some(Seq::new(m.file_refs.len(), |i: int| ref_op_of(base, m.file_refs[i]).unwrap()))
    } else {
        None
    }
}

/// Compute the write plan for the inline files: for each entry, in manifest
/// order, the destination path `"{base_dir}/{filename}"` and its parent
/// directory. Fails with `InvalidPath`, naming the first offending
/// destination, exactly when some destination has no parent component.
pub fn plan_inline_writes(m: &FontManifest, base_dir: &str) -> (r: Result<
    Vec<InlineOp>,
    FontError,
>)
    ensures
        match r {
            Ok(ops) => inline_plan_spec(m@, base_dir@) == Some(
                ops@.map_values(|o: InlineOp| o@),
            ),
            Err(e) => inline_plan_spec(m@, base_dir@) is None && (exists|i: int|
                0 <= i < m@.files.len() && inline_op_of(base_dir@, #[trigger] m@.files[i]) is None
                    && (forall|k: int|
                    0 <= k < i ==> inline_op_of(base_dir@, #[trigger] m@.files[k]) is Some) && (
                e matches FontError::InvalidPath { path } && path@ == prefixed(
                    base_dir@,
                    m@.files[i].filename,
                ))),
        },
{
    let mut ops: Vec<InlineOp> = Vec::new();
    let mut i: usize = 0;
    while i < m.files.len()
        invariant
            i <= m.files@.len(),
            ops@.len() == i,
            m@.files == m.files@.map_values(|f: crate::manifest::ManifestFile| f@),
            forall|k: int|
                0 <= k < i ==> inline_op_of(base_dir@, m@.files[k]) == Some(#[trigger] ops@[k]@),
        decreases m.files@.len() - i,
    {
        let path = join_with_slash(base_dir, m.files[i].filename.as_str());
        proof {
            assert(m@.files[i as int] == m.files@[i as int]@);
            assert(path@ == prefixed(base_dir@, m@.files[i as int].filename));
        }
        match parent_of(path.as_str()) {
            Some(parent) => {
                let op = InlineOp { path, parent, contents: m.files[i].contents.clone() };
                ops.push(op);
            },
            None => {
                proof {
                    assert(inline_op_of(base_dir@, m@.files[i as int]) is None);
                    assert(!all_inline_ops_ok(base_dir@, m@.files));
                    assert forall|k: int| 0 <= k < i implies inline_op_of(
                        base_dir@,
                        #[trigger] m@.files[k],
                    ) is Some by {
                        assert(inline_op_of(base_dir@, m@.files[k]) == Some(ops@[k]@));
                    }
                }
                return Err(FontError::InvalidPath { path });
            },
        }
        i = i + 1;
    }
    proof {
        assert forall|k: int| 0 <= k < m@.files.len() implies inline_op_of(
            base_dir@,
            #[trigger] m@.files[k],
        ) is Some by {
            assert(inline_op_of(base_dir@, m@.files[k]) == Some(ops@[k]@));
        }
        assert(ops@.map_values(|o: InlineOp| o@) =~= Seq::new(
            m@.files.len(),
            |k: int| inline_op_of(base_dir@, m@.files[k]).unwrap(),
        )) by {
            assert forall|k: int| 0 <= k < m@.files.len() implies ops@.map_values(
                |o: InlineOp| o@,
            )[k] == inline_op_of(base_dir@, m@.files[k]).unwrap() by {
                assert(inline_op_of(base_dir@, m@.files[k]) == Some(ops@[k]@));
            }
        }
    }
    Ok(ops)
}

/// Compute the download plan for the referenced files, in manifest order,
/// with the same destination layout and failure rule as the inline plan.
pub fn plan_ref_downloads(m: &FontManifest, base_dir: &str) -> (r: Result<Vec<RefOp>, FontError>)
    ensures
        match r {
            Ok(ops) => ref_plan_spec(m@, base_dir@) == Some(ops@.map_values(|o: RefOp| o@)),
            Err(e) => ref_plan_spec(m@, base_dir@) is None && (exists|i: int|
                0 <= i < m@.file_refs.len() && ref_op_of(
                    base_dir@,
                    #[trigger] m@.file_refs[i],
                ) is None && (forall|k: int|
                    0 <= k < i ==> ref_op_of(base_dir@, #[trigger] m@.file_refs[k]) is Some) && (
                e matches FontError::InvalidPath { path } && path@ == prefixed(
                    base_dir@,
                    m@.file_refs[i].filename,
                ))),
        },
{
    let mut ops: Vec<RefOp> = Vec::new();
    let mut i: usize = 0;
    while i < m.file_refs.len()
        invariant
            i <= m.file_refs@.len(),
            ops@.len() == i,
            m@.file_refs == m.file_refs@.map_values(|f: crate::manifest::ManifestFileRef| f@),
            forall|k: int|
                0 <= k < i ==> ref_op_of(base_dir@, m@.file_refs[k]) == Some(#[trigger] ops@[k]@),
        decreases m.file_refs@.len() - i,
    {
        let path = join_with_slash(base_dir, m.file_refs[i].filename.as_str());
        proof {
            assert(m@.file_refs[i as int] == m.file_refs@[i as int]@);
            assert(path@ == prefixed(base_dir@, m@.file_refs[i as int].filename));
        }
        match parent_of(path.as_str()) {
            Some(parent) => {
                let op = RefOp {
                    url: m.file_refs[i].url.clone(),
                    filename: m.file_refs[i].filename.clone(),
                    path,
                    parent,
                };
                ops.push(op);
            },
            None => {
                proof {
                    assert(ref_op_of(base_dir@, m@.file_refs[i as int]) is None);
                    assert(!all_ref_ops_ok(base_dir@, m@.file_refs));
                    assert forall|k: int| 0 <= k < i implies ref_op_of(
                        base_dir@,
                        #[trigger] m@.file_refs[k],
                    ) is Some by {
                        assert(ref_op_of(base_dir@, m@.file_refs[k]) == Some(ops@[k]@));
                    }
                }
                return Err(FontError::InvalidPath { path });
            },
        }
        i = i + 1;
    }
    proof {
        assert forall|k: int| 0 <= k < m@.file_refs.len() implies ref_op_of(
            base_dir@,
            #[trigger] m@.file_refs[k],
        ) is Some by {
            assert(ref_op_of(base_dir@, m@.file_refs[k]) == Some(ops@[k]@));
        }
        assert(ops@.map_values(|o: RefOp| o@) =~= Seq::new(
            m@.file_refs.len(),
            |k: int| ref_op_of(base_dir@, m@.file_refs[k]).unwrap(),
        )) by {
            assert forall|k: int| 0 <= k < m@.file_refs.len() implies ops@.map_values(
                |o: RefOp| o@,
            )[k] == ref_op_of(base_dir@, m@.file_refs[k]).unwrap() by {
                assert(ref_op_of(base_dir@, m@.file_refs[k]) == Some(ops@[k]@));
            }
        }
    }
    Ok(ops)
}

/// The destination tree after the inline plan runs to completion: each write
/// replaces whatever the path held before, in plan order.
pub open spec fn apply_inline_ops(
    fs: Map<Seq<char>, Seq<char>>,
    ops: Seq<InlineOpView>,
) -> Map<Seq<char>, Seq<char>>
    decreases ops.len(),
{
    if ops.len() == 0 {
        fs
    } else {
        apply_inline_ops(fs.insert(ops[0].path, ops[0].contents), ops.drop_first())
    }
}

proof fn lemma_apply_untouched(fs: Map<Seq<char>, Seq<char>>, ops: Seq<InlineOpView>, p: Seq<char>)
    requires
        forall|k: int| 0 <= k < ops.len() ==> (#[trigger] ops[k]).path != p,
    ensures
        apply_inline_ops(fs, ops).contains_key(p) == fs.contains_key(p),
        fs.contains_key(p) ==> apply_inline_ops(fs, ops)[p] == fs[p],
    decreases ops.len(),
{
    if ops.len() > 0 {
        assert(ops[0].path != p);
        lemma_apply_untouched(fs.insert(ops[0].path, ops[0].contents), ops.drop_first(), p);
    }
}

/// Law: when several writes of the plan resolve to the same destination
/// path, the tree afterwards holds exactly the contents of the last of
/// them (last-write-wins).
pub proof fn lemma_last_write_wins(
    fs: Map<Seq<char>, Seq<char>>,
    ops: Seq<InlineOpView>,
    j: int,
)
    requires
        0 <= j < ops.len(),
        forall|k: int| j < k < ops.len() ==> (#[trigger] ops[k]).path != ops[j].path,
    ensures
        apply_inline_ops(fs, ops).contains_key(ops[j].path),
        apply_inline_ops(fs, ops)[ops[j].path] == ops[j].contents,
    decreases ops.len(),
{
    let fs1 = fs.insert(ops[0].path, ops[0].contents);
    let rest = ops.drop_first();
    if j == 0 {
        assert(forall|k: int| 0 <= k < rest.len() ==> (#[trigger] rest[k]).path != ops[0].path);
        lemma_apply_untouched(fs1, rest, ops[0].path);
    } else {
        assert(rest[j - 1] == ops[j]);
        assert(forall|k: int|
            j - 1 < k < rest.len() ==> (#[trigger] rest[k]).path != rest[j - 1].path);
        lemma_last_write_wins(fs1, rest, j - 1);
    }
}

/// Law: an inline entry whose contents is the empty string is still written:
/// after the plan runs, its destination exists and holds zero bytes,
/// provided no later write targets the same path.
pub proof fn lemma_empty_contents_zero_byte(
    fs: Map<Seq<char>, Seq<char>>,
    ops: Seq<InlineOpView>,
    j: int,
)
    requires
        0 <= j < ops.len(),
        forall|k: int| j < k < ops.len() ==> (#[trigger] ops[k]).path != ops[j].path,
        ops[j].contents.len() == 0,
    ensures
        apply_inline_ops(fs, ops).contains_key(ops[j].path),
        apply_inline_ops(fs, ops)[ops[j].path].len() == 0,
{
    lemma_last_write_wins(fs, ops, j);
}

/// HTTP success as the transport's success test defines it: the 2xx range.
pub open spec fn status_success(status: u16) -> bool {
    200 <= status < 300
}

/// Decide the fate of one reference download response: a transport failure
/// (no status at all) or a non-success status aborts with `NetworkError`
/// carrying the url and, when one was received, the status.
pub fn classify_response(url: &str, status: Option<u16>) -> (r: Result<(), FontError>)
    ensures
        match r {
            Ok(_) => status matches Some(s) && status_success(s),
            Err(e) => (match status {
                Some(s) => !status_success(s),
                None => true,
            }) && (e matches FontError::NetworkError { url: u, status: st } && u@ == url@ && st
                == status),
        },
{
    match status {
        Some(s) => if 200 <= s && s < 300 {
            Ok(())
        } else {
            Err(FontError::NetworkError { url: url.to_owned(), status: Some(s) })
        },
        None => Err(FontError::NetworkError { url: url.to_owned(), status: None }),
    }
}

/// The steps of materializing one reference entry, in the order the
/// downloader performs them. Each entry walks `Fetching` to `Writing`; a
/// failure at any step aborts the whole run.
#[derive(Clone, Copy, Debug, PartialEq, Eq, Structural)]
pub enum RefStage {
    /// The entry's bytes are being fetched from its url.
    Fetching,
    /// The parent directory of the destination is being created.
    EnsuringDir,
    /// The destination file is being created.
    CreatingFile,
    /// The fetched bytes are being written out.
    Writing,
}

/// A run of the reference downloader. The planned downloads are processed
/// strictly in plan order, one at a time, each stepping through the stages
/// of `RefStage`; recording a failure aborts the run: no later step or
/// entry ever becomes current.
pub struct RefRun {
    ops: Vec<RefOp>,
    next_idx: usize,
    stage: RefStage,
    failure: Option<FontError>,
}

impl RefRun {
    /// The run processes its plan in order and never steps past its end.
    pub closed spec fn wf(self) -> bool {
        self.next_idx <= self.ops@.len()
    }

    pub closed spec fn ops_spec(self) -> Seq<RefOpView> {
        self.ops@.map_values(|o: RefOp| o@)
    }

    pub closed spec fn next_spec(self) -> int {
        self.next_idx as int
    }

    pub closed spec fn failure_spec(self) -> Option<FontError> {
        self.failure
    }

    /// The step the run is at within the current entry.
    pub closed spec fn stage_spec(self) -> RefStage {
        self.stage
    }

    /// The entry the run must process next: absent exactly when the run has
    /// failed or every entry is done.
    pub open spec fn spec_current(self) -> Option<RefOpView> {
        if self.failure_spec() is Some || self.next_spec() >= self.ops_spec().len() {
            None
        } else {
            Some(self.ops_spec()[self.next_spec()])
        }
    }

    /// Start a run over a download plan, pending on its first entry.
    pub fn new(ops: Vec<RefOp>) -> (r: RefRun)
        ensures
            r.wf(),
            r.ops_spec() == ops@.map_values(|o: RefOp| o@),
            r.next_spec() == 0,
            r.stage_spec() == RefStage::Fetching,
            r.failure_spec() is None,
    {
        RefRun { ops, next_idx: 0, stage: RefStage::Fetching, failure: None }
    }

    /// The next entry to download, or nothing when the run is over.
    pub fn current(&self) -> (r: Option<&RefOp>)
        requires
            self.wf(),
        ensures
            match r {
                Some(op) => self.spec_current() == Some(op@),
                None => self.spec_current() is None,
            },
    {
        if self.failure.is_some() {
            return None;
        }
        if self.next_idx < self.ops.len() {
            Some(&self.ops[self.next_idx])
        } else {
            None
        }
    }

    /// The position of the current entry, counting from zero.
    pub fn index(&self) -> (r: usize)
        ensures
            r == self.next_spec(),
    {
        self.next_idx
    }

    /// How many downloads the whole plan holds.
    pub fn total(&self) -> (r: usize)
        ensures
            r == self.ops_spec().len(),
    {
        self.ops.len()
    }

    /// The step the run is at within the current entry.
    pub fn current_stage(&self) -> (r: RefStage)
        ensures
            r == self.stage_spec(),
    {
        self.stage
    }

    /// Record that the current entry's bytes arrived in full: the parent
    /// directory must be ensured next.
    pub fn record_fetched(&mut self)
        requires
            old(self).wf(),
            old(self).spec_current() is Some,
            old(self).stage_spec() == RefStage::Fetching,
        ensures
            final(self).wf(),
            final(self).ops_spec() == old(self).ops_spec(),
            final(self).next_spec() == old(self).next_spec(),
            final(self).failure_spec() is None,
            final(self).spec_current() == old(self).spec_current(),
            final(self).stage_spec() == RefStage::EnsuringDir,
    {
        self.stage = RefStage::EnsuringDir;
    }

    /// Record that the parent directory exists: the destination file must
    /// be created next.
    pub fn record_dir_ensured(&mut self)
        requires
            old(self).wf(),
            old(self).spec_current() is Some,
            old(self).stage_spec() == RefStage::EnsuringDir,
        ensures
            final(self).wf(),
            final(self).ops_spec() == old(self).ops_spec(),
            final(self).next_spec() == old(self).next_spec(),
            final(self).failure_spec() is None,
            final(self).spec_current() == old(self).spec_current(),
            final(self).stage_spec() == RefStage::CreatingFile,
    {
        self.stage = RefStage::CreatingFile;
    }

    /// Record that the destination file was created: the bytes must be
    /// written next.
    pub fn record_file_created(&mut self)
        requires
            old(self).wf(),
            old(self).spec_current() is Some,
            old(self).stage_spec() == RefStage::CreatingFile,
        ensures
            final(self).wf(),
            final(self).ops_spec() == old(self).ops_spec(),
            final(self).next_spec() == old(self).next_spec(),
            final(self).failure_spec() is None,
            final(self).spec_current() == old(self).spec_current(),
            final(self).stage_spec() == RefStage::Writing,
    {
        self.stage = RefStage::Writing;
    }

    /// Record that the current entry was written in full: the entry is
    /// done, and the run moves on to the next one.
    pub fn record_written(&mut self)
        requires
            old(self).wf(),
            old(self).spec_current() is Some,
            old(self).stage_spec() == RefStage::Writing,
        ensures
            final(self).wf(),
            final(self).ops_spec() == old(self).ops_spec(),
            final(self).next_spec() == old(self).next_spec() + 1,
            final(self).stage_spec() == RefStage::Fetching,
            final(self).failure_spec() is None,
    {
        let n = self.ops.len();
        proof {
            assert(old(self).ops_spec().len() == old(self).ops@.len());
            assert(self.next_idx < n);
        }
        self.next_idx = self.next_idx + 1;
        self.stage = RefStage::Fetching;
    }

    /// Record that the current entry failed. The run is aborted: from here
    /// on no entry is current, whatever else happens to the run.
    pub fn fail(&mut self, e: FontError)
        requires
            old(self).wf(),
        ensures
            final(self).wf(),
            final(self).ops_spec() == old(self).ops_spec(),
            final(self).next_spec() == old(self).next_spec(),
            final(self).failure_spec() == Some(e),
            final(self).spec_current() is None,
    {
        self.failure = Some(e);
    }

    /// Surrender the recorded failure, if any.
    pub fn take_failure(self) -> (r: Option<FontError>)
        ensures
            r == self.failure_spec(),
    {
        self.failure
    }
}

/// Law: a reference download that fails aborts the run: once a failure is
/// recorded, no subsequent reference is ever processed.
pub proof fn lemma_failed_run_has_no_current(r: RefRun)
    requires
        r.failure_spec() is Some,
    ensures
        r.spec_current() is None,
{
}

/// The steps of materializing one inline entry, in the order the writer
/// performs them; the contents are already at hand, so there is nothing to
/// fetch.
#[derive(Clone, Copy, Debug, PartialEq, Eq, Structural)]
pub enum WriteStage {
    /// The parent directory of the destination is being created.
    EnsuringDir,
    /// The destination file is being created.
    CreatingFile,
    /// The contents are being written out.
    Writing,
}

/// A run of the inline-file writer: the planned writes are processed
/// strictly in plan order, one at a time, each stepping through the stages
/// of `WriteStage`; recording a failure aborts the run.
pub struct InlineRun {
    ops: Vec<InlineOp>,
    next_idx: usize,
    stage: WriteStage,
    failure: Option<FontError>,
}

impl InlineRun {
    /// The run processes its plan in order and never steps past its end.
    pub closed spec fn wf(self) -> bool {
        self.next_idx <= self.ops@.len()
    }

    pub closed spec fn ops_spec(self) -> Seq<InlineOpView> {
        self.ops@.map_values(|o: InlineOp| o@)
    }

    pub closed spec fn next_spec(self) -> int {
        self.next_idx as int
    }

    pub closed spec fn failure_spec(self) -> Option<FontError> {
        self.failure
    }

    /// The step the run is at within the current entry.
    pub closed spec fn stage_spec(self) -> WriteStage {
        self.stage
    }

    /// The entry the run must write next: absent exactly when the run has
    /// failed or every entry is done.
    pub open spec fn spec_current(self) -> Option<InlineOpView> {
        if self.failure_spec() is Some || self.next_spec() >= self.ops_spec().len() {
            None
        } else {
            Some(self.ops_spec()[self.next_spec()])
        }
    }

    /// Start a run over an inline write plan.
    pub fn new(ops: Vec<InlineOp>) -> (r: InlineRun)
        ensures
            r.wf(),
            r.ops_spec() == ops@.map_values(|o: InlineOp| o@),
            r.next_spec() == 0,
            r.stage_spec() == WriteStage::EnsuringDir,
            r.failure_spec() is None,
    {
        InlineRun { ops, next_idx: 0, stage: WriteStage::EnsuringDir, failure: None }
    }

    /// The next entry to write, or nothing when the run is over.
    pub fn current(&self) -> (r: Option<&InlineOp>)
        requires
            self.wf(),
        ensures
            match r {
                Some(op) => self.spec_current() == Some(op@),
                None => self.spec_current() is None,
            },
    {
        if self.failure.is_some() {
            return None;
        }
        if self.next_idx < self.ops.len() {
            Some(&self.ops[self.next_idx])
        } else {
            None
        }
    }

    /// The step the run is at within the current entry.
    pub fn current_stage(&self) -> (r: WriteStage)
        ensures
            r == self.stage_spec(),
    {
        self.stage
    }

    /// Record that the parent directory exists: the destination file must
    /// be created next.
    pub fn record_dir_ensured(&mut self)
        requires
            old(self).wf(),
            old(self).spec_current() is Some,
            old(self).stage_spec() == WriteStage::EnsuringDir,
        ensures
            final(self).wf(),
            final(self).ops_spec() == old(self).ops_spec(),
            final(self).next_spec() == old(self).next_spec(),
            final(self).failure_spec() is None,
            final(self).spec_current() == old(self).spec_current(),
            final(self).stage_spec() == WriteStage::CreatingFile,
    {
        self.stage = WriteStage::CreatingFile;
    }

    /// Record that the destination file was created: the contents must be
    /// written next.
    pub fn record_file_created(&mut self)
        requires
            old(self).wf(),
            old(self).spec_current() is Some,
            old(self).stage_spec() == WriteStage::CreatingFile,
        ensures
            final(self).wf(),
            final(self).ops_spec() == old(self).ops_spec(),
            final(self).next_spec() == old(self).next_spec(),
            final(self).failure_spec() is None,
            final(self).spec_current() == old(self).spec_current(),
            final(self).stage_spec() == WriteStage::Writing,
    {
        self.stage = WriteStage::Writing;
    }

    /// Record that the current entry was written in full: the entry is
    /// done, and the run moves on to the next one.
    pub fn record_written(&mut self)
        requires
            old(self).wf(),
            old(self).spec_current() is Some,
            old(self).stage_spec() == WriteStage::Writing,
        ensures
            final(self).wf(),
            final(self).ops_spec() == old(self).ops_spec(),
            final(self).next_spec() == old(self).next_spec() + 1,
            final(self).stage_spec() == WriteStage::EnsuringDir,
            final(self).failure_spec() is None,
    {
        let n = self.ops.len();
        proof {
            assert(old(self).ops_spec().len() == old(self).ops@.len());
            assert(self.next_idx < n);
        }
        self.next_idx = self.next_idx + 1;
        self.stage = WriteStage::EnsuringDir;
    }

    /// Record that the current step failed. The run is aborted: from here
    /// on no entry is current, whatever else happens to the run.
    pub fn fail(&mut self, e: FontError)
        requires
            old(self).wf(),
        ensures
            final(self).wf(),
            final(self).ops_spec() == old(self).ops_spec(),
            final(self).next_spec() == old(self).next_spec(),
            final(self).failure_spec() == Some(e),
            final(self).spec_current() is None,
    {
        self.failure = Some(e);
    }

    /// Surrender the recorded failure, if any.
    pub fn take_failure(self) -> (r: Option<FontError>)
        ensures
            r == self.failure_spec(),
    {
        self.failure
    }
}

/// Law: an inline write that fails aborts the run: once a failure is
/// recorded, no subsequent inline file is ever written.
pub proof fn lemma_failed_inline_run_has_no_current(r: InlineRun)
    requires
        r.failure_spec() is Some,
    ensures
        r.spec_current() is None,
{
}

} // verus!
