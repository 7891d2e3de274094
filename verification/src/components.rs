//! Operations and features.
//!
//! An operation (a *pitho*) is one action on one file of the store: a
//! backup, a substitution, a deletion, or the rollback marker. A feature (a
//! *charism*) is a named list of operations with the files that they touch;
//! it is applied as a whole and rolled back as a whole.

use vstd::prelude::*;
use vstd::string::*;
use crate::error::{raised, CustomError, ErrorKind};
use crate::store::{FileStore, StoreView};
use crate::utils::{
    backup_from_origin, backup_location, backup_outcome, backup_path, delete_regex,
    replace_outcome, replace_regex, restore_outcome, rollback_to_origin, settles,
};

verus! {

/// The sorts of operation.
#[derive(Debug, Clone, Copy, PartialEq, Eq, Structural)]
pub enum ApplyType {
    Backup,
    RollBack,
    Replace,
    Delete,
}

/// The mathematical value of an operation.
pub enum PithoView {
    Backup { file_path: Seq<char>, to: Seq<char> },
    RollBack { file_path: Seq<char> },
    Replace { file_path: Seq<char>, from: Seq<char>, to: Seq<char> },
    Delete { file_path: Seq<char>, from: Seq<char> },
}

impl PithoView {
    /// The sort of the operation.
    pub open spec fn kind(self) -> ApplyType {
        match self {
            PithoView::Backup { .. } => ApplyType::Backup,
            PithoView::RollBack { .. } => ApplyType::RollBack,
            PithoView::Replace { .. } => ApplyType::Replace,
            PithoView::Delete { .. } => ApplyType::Delete,
        }
    }

    /// The file that the operation is about.
    pub open spec fn path(self) -> Seq<char> {
        match self {
            PithoView::Backup { file_path, .. } => file_path,
            PithoView::RollBack { file_path } => file_path,
            PithoView::Replace { file_path, .. } => file_path,
            PithoView::Delete { file_path, .. } => file_path,
        }
    }

    /// Whether the operation changes the text of its file.
    pub open spec fn mutates(self) -> bool {
        self is Replace || self is Delete
    }

    /// The pattern of a substitution or deletion.
    pub open spec fn pattern(self) -> Option<Seq<char>> {
        match self {
            PithoView::Replace { from, .. } => Some(from),
            PithoView::Delete { from, .. } => Some(from),
            _ => None,
        }
    }

    /// What applying the operation to the store `s` does. The rollback
    /// marker cannot be applied.
    pub open spec fn outcome(self, s: StoreView) -> Result<StoreView, ErrorKind> {
        match self {
            PithoView::Backup { file_path, to } => backup_outcome(s, file_path, to),
            PithoView::RollBack { .. } => Err(ErrorKind::NeedsRollback),
            PithoView::Replace { file_path, from, to } => replace_outcome(s, file_path, from, to),
            PithoView::Delete { file_path, from } => replace_outcome(
                s,
                file_path,
                from,
                Seq::empty(),
            ),
        }
    }
}

/// What every operation offers.
pub trait Applyable {
    /// The mathematical value of the operation.
    spec fn model(&self) -> PithoView;

    /// Applies the operation to the store.
    fn do_apply(&self, store: &mut FileStore) -> (r: Result<(), CustomError>)
        ensures
            settles(r, old(store)@, final(store)@, self.model().outcome(old(store)@)),
    ;

    /// The sort of the operation.
    fn get_type(&self) -> (kind: ApplyType)
        ensures
            kind == self.model().kind(),
    ;

    /// The file that the operation is about.
    fn get_file_path(&self) -> (path: &str)
        ensures
            path@ == self.model().path(),
    ;
}

/// Copies a file or directory into the backup directory `to`, unless it has
/// a backup there.
pub struct Backup {
    pub file_path: String,
    pub to: String,
}

impl Backup {
    /// The backup of `file_path` into the directory `to`.
    pub fn new(file_path: String, to: &str) -> (op: Backup)
        ensures
            op.model() == (PithoView::Backup { file_path: file_path@, to: to@ }),
    {
        Backup { file_path, to: to.to_owned() }
    }
}

impl Applyable for Backup {
    open spec fn model(&self) -> PithoView {
        PithoView::Backup { file_path: self.file_path@, to: self.to@ }
    }

    fn do_apply(&self, store: &mut FileStore) -> (r: Result<(), CustomError>) {
        backup_from_origin(store, self.file_path.as_str(), self.to.as_str())
    }

    fn get_type(&self) -> (kind: ApplyType) {
        ApplyType::Backup
    }

    fn get_file_path(&self) -> (path: &str) {
        self.file_path.as_str()
    }
}

/// The marker at the head of a feature: before the operations behind it are
/// applied, the feature is rolled back. It cannot be applied itself.
pub struct RollBack {
    pub file_path: String,
}

impl RollBack {
    /// The marker, with the backup directory as its path.
    pub fn new(file_path: String) -> (op: RollBack)
        ensures
            op.model() == (PithoView::RollBack { file_path: file_path@ }),
    {
        RollBack { file_path }
    }
}

impl Applyable for RollBack {
    open spec fn model(&self) -> PithoView {
        PithoView::RollBack { file_path: self.file_path@ }
    }

    fn do_apply(&self, store: &mut FileStore) -> (r: Result<(), CustomError>) {
        Err(CustomError::of_kind(ErrorKind::NeedsRollback))
    }

    fn get_type(&self) -> (kind: ApplyType) {
        ApplyType::RollBack
    }

    fn get_file_path(&self) -> (path: &str) {
        self.file_path.as_str()
    }
}

/// Replaces every match of the pattern `from` in a file by `to`.
pub struct Replace {
    pub file_path: String,
    pub from: String,
    pub to: String,
}

impl Replace {
    /// The substitution of `to` for every match of `from` in `file_path`.
    pub fn new(file_path: String, from: &str, to: &str) -> (op: Replace)
        ensures
            op.model() == (PithoView::Replace { file_path: file_path@, from: from@, to: to@ }),
    {
        Replace { file_path, from: from.to_owned(), to: to.to_owned() }
    }
}

impl Applyable for Replace {
    open spec fn model(&self) -> PithoView {
        PithoView::Replace { file_path: self.file_path@, from: self.from@, to: self.to@ }
    }

    fn do_apply(&self, store: &mut FileStore) -> (r: Result<(), CustomError>) {
        replace_regex(store, self.file_path.as_str(), self.from.as_str(), self.to.as_str())
    }

    fn get_type(&self) -> (kind: ApplyType) {
        ApplyType::Replace
    }

    fn get_file_path(&self) -> (path: &str) {
        self.file_path.as_str()
    }
}

/// Deletes every match of the pattern `from` in a file.
pub struct Delete {
    pub file_path: String,
    pub from: String,
}

impl Delete {
    /// The deletion of every match of `from` in `file_path`.
    pub fn new(file_path: String, from: &str) -> (op: Delete)
        ensures
            op.model() == (PithoView::Delete { file_path: file_path@, from: from@ }),
    {
        Delete { file_path, from: from.to_owned() }
    }
}

impl Applyable for Delete {
    open spec fn model(&self) -> PithoView {
        PithoView::Delete { file_path: self.file_path@, from: self.from@ }
    }

    fn do_apply(&self, store: &mut FileStore) -> (r: Result<(), CustomError>) {
        delete_regex(store, self.file_path.as_str(), self.from.as_str())
    }

    fn get_type(&self) -> (kind: ApplyType) {
        ApplyType::Delete
    }

    fn get_file_path(&self) -> (path: &str) {
        self.file_path.as_str()
    }
}

/// An operation of any sort.
pub enum Pitho {
    Backup(Backup),
    RollBack(RollBack),
    Replace(Replace),
    Delete(Delete),
}

impl View for Pitho {
    type V = PithoView;

    open spec fn view(&self) -> PithoView {
        match self {
            Pitho::Backup(op) => op.model(),
            Pitho::RollBack(op) => op.model(),
            Pitho::Replace(op) => op.model(),
            Pitho::Delete(op) => op.model(),
        }
    }
}

impl Applyable for Pitho {
    open spec fn model(&self) -> PithoView {
        self@
    }

    fn do_apply(&self, store: &mut FileStore) -> (r: Result<(), CustomError>) {
        match self {
            Pitho::Backup(op) => op.do_apply(store),
            Pitho::RollBack(op) => op.do_apply(store),
            Pitho::Replace(op) => op.do_apply(store),
            Pitho::Delete(op) => op.do_apply(store),
        }
    }

    fn get_type(&self) -> (kind: ApplyType) {
        match self {
            Pitho::Backup(op) => op.get_type(),
            Pitho::RollBack(op) => op.get_type(),
            Pitho::Replace(op) => op.get_type(),
            Pitho::Delete(op) => op.get_type(),
        }
    }

    fn get_file_path(&self) -> (path: &str) {
        match self {
            Pitho::Backup(op) => op.get_file_path(),
            Pitho::RollBack(op) => op.get_file_path(),
            Pitho::Replace(op) => op.get_file_path(),
            Pitho::Delete(op) => op.get_file_path(),
        }
    }
}

impl Pitho {
    /// An operation with the same value.
    pub fn duplicate(&self) -> (op: Pitho)
        ensures
            op@ == self@,
    {
        match self {
            Pitho::Backup(b) => Pitho::Backup(
                Backup { file_path: b.file_path.clone(), to: b.to.clone() },
            ),
            Pitho::RollBack(r) => Pitho::RollBack(RollBack { file_path: r.file_path.clone() }),
            Pitho::Replace(r) => Pitho::Replace(
                Replace { file_path: r.file_path.clone(), from: r.from.clone(), to: r.to.clone() },
            ),
            Pitho::Delete(d) => Pitho::Delete(
                Delete { file_path: d.file_path.clone(), from: d.from.clone() },
            ),
        }
    }
}

/// The operations of a feature, in the order in which they are applied.
pub struct Strategy {
    pub pithos: Vec<Pitho>,
}

impl View for Strategy {
    type V = Seq<PithoView>;

    open spec fn view(&self) -> Seq<PithoView> {
        Seq::new(self.pithos@.len(), |i: int| self.pithos@[i]@)
    }
}

impl Strategy {
    /// The list that holds the rollback marker and nothing else.
    pub fn new(backup_home: &str) -> (strategy: Strategy)
        ensures
            strategy@ == seq![PithoView::RollBack { file_path: backup_home@ }],
    {
        let mut pithos: Vec<Pitho> = Vec::new();
        pithos.push(Pitho::RollBack(RollBack::new(backup_home.to_owned())));
        let strategy = Strategy { pithos };
        assert(strategy@ =~= seq![PithoView::RollBack { file_path: backup_home@ }]);
        strategy
    }

    /// Appends an operation.
    pub fn add(&mut self, pitho: Pitho)
        ensures
            final(self)@ == old(self)@.push(pitho@),
    {
        self.pithos.push(pitho);
        assert(self@ =~= old(self)@.push(pitho@));
    }

    /// A list with the same operations.
    pub fn duplicate(&self) -> (strategy: Strategy)
        ensures
            strategy@ == self@,
    {
        let mut pithos: Vec<Pitho> = Vec::new();
        let mut i: usize = 0;
        while i < self.pithos.len()
            invariant
                i <= self.pithos.len(),
                pithos.len() == i,
                forall|j: int| 0 <= j < i ==> (#[trigger] pithos@[j])@ == self.pithos@[j]@,
            decreases self.pithos.len() - i,
        {
            pithos.push(self.pithos[i].duplicate());
            i = i + 1;
        }
        let strategy = Strategy { pithos };
        assert(strategy@ =~= self@);
        strategy
    }
}

/// The texts of a list of strings.
pub open spec fn texts(list: Seq<String>) -> Seq<Seq<char>> {
    Seq::new(list.len(), |i: int| list[i]@)
}

/// The files that a list of operations touches: the files of its
/// substitutions and deletions, each once, in the order of their first
/// occurrence.
pub open spec fn touched_of(operations: Seq<PithoView>) -> Seq<Seq<char>>
    decreases operations.len(),
{
    if operations.len() == 0 {
        Seq::empty()
    } else {
        let before = touched_of(operations.drop_last());
        let op = operations.last();
        if op.mutates() && !before.contains(op.path()) {
            before.push(op.path())
        } else {
            before
        }
    }
}

/// The mathematical value of a feature.
pub struct CharismView {
    pub group: Seq<char>,
    pub name: Seq<char>,
    pub description: Seq<char>,
    /// The operations, the rollback marker first.
    pub operations: Seq<PithoView>,
    /// The files that the operations touch.
    pub touched: Seq<Seq<char>>,
    /// The directory that holds the backups.
    pub backup_home: Seq<char>,
}

/// A feature is well formed when its list starts with the rollback marker
/// and its touched files are those of its operations.
pub open spec fn well_formed(c: CharismView) -> bool {
    &&& c.operations.len() > 0
    &&& c.operations[0] is RollBack
    &&& c.touched == touched_of(c.operations)
}

/// What adding `op` to the feature `c` does, to the feature and to the
/// store: the first substitution or deletion on a file backs the file up,
/// and is refused where that fails.
pub open spec fn add_outcome(c: CharismView, s: StoreView, op: PithoView) -> Result<
    (CharismView, StoreView),
    ErrorKind,
> {
    if op.mutates() && !c.touched.contains(op.path()) {
        match backup_outcome(s, op.path(), c.backup_home) {
            Ok(saved) => Ok(
                (
                    CharismView {
                        operations: c.operations.push(op),
                        touched: c.touched.push(op.path()),
                        ..c
                    },
                    saved,
                ),
            ),
            Err(kind) => Err(kind),
        }
    } else {
        Ok(
            (
                CharismView { operations: c.operations.push(op), ..c },
                s,
            ),
        )
    }
}

/// What adding the operations `ops[i..]` to the feature `c` does, one after
/// the other: the feature and the store that result, and the error of the
/// first operation that was refused. The operations behind that one are not
/// added.
pub open spec fn add_all_from(c: CharismView, s: StoreView, ops: Seq<PithoView>, i: int) -> (
    CharismView,
    StoreView,
    Option<ErrorKind>,
)
    decreases ops.len() - i,
{
    if i < 0 || i >= ops.len() {
        (c, s, None)
    } else {
        match add_outcome(c, s, ops[i]) {
            Ok((next, saved)) => add_all_from(next, saved, ops, i + 1),
            Err(kind) => (c, s, Some(kind)),
        }
    }
}

/// The feature `c` without its operations: only the rollback marker is
/// left, and no file counts as touched.
pub open spec fn cleared(c: CharismView) -> CharismView {
    CharismView {
        operations: seq![PithoView::RollBack { file_path: c.backup_home }],
        touched: Seq::empty(),
        ..c
    }
}

/// What restoring the files `touched[i..]` from `root` does, one after the
/// other: the store that results, and the error of the first file that
/// could not be restored. The files behind that one are left as they are.
pub open spec fn rollback_from(
    touched: Seq<Seq<char>>,
    root: Seq<char>,
    s: StoreView,
    i: int,
) -> (StoreView, Option<ErrorKind>)
    decreases touched.len() - i,
{
    if i < 0 || i >= touched.len() {
        (s, None)
    } else {
        match restore_outcome(s, root, touched[i]) {
            Ok(next) => rollback_from(touched, root, next, i + 1),
            Err(kind) => (s, Some(kind)),
        }
    }
}

/// What rolling the feature `c` back does.
pub open spec fn rollback_outcome(c: CharismView, s: StoreView) -> (StoreView, Option<ErrorKind>) {
    rollback_from(c.touched, c.backup_home, s, 0)
}

/// What applying the operations `c.operations[i..]` does, one after the
/// other. The rollback marker rolls the feature back, and the run fails
/// where that rollback fails. An operation that fails ends the run: the
/// feature is rolled back as far as that goes, and the run fails with the
/// operation's error, whether the rollback went well or not.
pub open spec fn apply_from(c: CharismView, s: StoreView, i: int) -> (StoreView, Option<ErrorKind>)
    decreases c.operations.len() - i,
{
    if i < 0 || i >= c.operations.len() {
        (s, None)
    } else if c.operations[i] is RollBack {
        let (cleared, failure) = rollback_outcome(c, s);
        if failure is Some {
            (cleared, failure)
        } else {
            apply_from(c, cleared, i + 1)
        }
    } else {
        match c.operations[i].outcome(s) {
            Ok(next) => apply_from(c, next, i + 1),
            Err(kind) => (rollback_outcome(c, s).0, Some(kind)),
        }
    }
}

/// What applying the feature `c` does.
pub open spec fn apply_outcome(c: CharismView, s: StoreView) -> (StoreView, Option<ErrorKind>) {
    apply_from(c, s, 0)
}

/// What a run reports of one of its steps.
pub enum Event {
    /// An operation of the feature, or the restoring of one of its files,
    /// went well.
    Done { feature: String, file_path: String, kind: ApplyType },
    /// It failed.
    Failed { feature: String, file_path: String, kind: ApplyType, error: ErrorKind },
    /// The rollback that ends the feature's use has restored every file.
    Over { feature: String },
}

/// The mathematical value of an [`Event`].
pub enum EventView {
    Done { feature: Seq<char>, file_path: Seq<char>, kind: ApplyType },
    Failed { feature: Seq<char>, file_path: Seq<char>, kind: ApplyType, error: ErrorKind },
    Over { feature: Seq<char> },
}

impl View for Event {
    type V = EventView;

    open spec fn view(&self) -> EventView {
        match self {
            Event::Done { feature, file_path, kind } => EventView::Done {
                feature: feature@,
                file_path: file_path@,
                kind: *kind,
            },
            Event::Failed { feature, file_path, kind, error } => EventView::Failed {
                feature: feature@,
                file_path: file_path@,
                kind: *kind,
                error: *error,
            },
            Event::Over { feature } => EventView::Over { feature: feature@ },
        }
    }
}

/// The values of a list of events.
pub open spec fn reports(log: Seq<Event>) -> Seq<EventView> {
    Seq::new(log.len(), |i: int| log[i]@)
}

/// What restoring the files `c.touched[i..]` reports: one event for each
/// file, up to and with the first that could not be restored.
pub open spec fn rollback_events_from(c: CharismView, s: StoreView, i: int) -> Seq<EventView>
    decreases c.touched.len() - i,
{
    if i < 0 || i >= c.touched.len() {
        Seq::empty()
    } else {
        match restore_outcome(s, c.backup_home, c.touched[i]) {
            Ok(next) => seq![
                EventView::Done {
                    feature: c.name,
                    file_path: c.touched[i],
                    kind: ApplyType::RollBack,
                },
            ] + rollback_events_from(c, next, i + 1),
            Err(error) => seq![
                EventView::Failed {
                    feature: c.name,
                    file_path: c.touched[i],
                    kind: ApplyType::RollBack,
                    error,
                },
            ],
        }
    }
}

/// What the rollback of the feature `c` reports. Where `is_over` is set and
/// every file was restored, the last event says that the feature is over.
pub open spec fn rollback_events(c: CharismView, s: StoreView, is_over: bool) -> Seq<EventView> {
    if is_over && rollback_outcome(c, s).1 is None {
        rollback_events_from(c, s, 0) + seq![EventView::Over { feature: c.name }]
    } else {
        rollback_events_from(c, s, 0)
    }
}

/// What applying the operations `c.operations[i..]` reports: the events of
/// the rollback for the marker, one event for each other operation, and
/// behind an operation that failed the events of the rollback that follows.
pub open spec fn apply_events_from(c: CharismView, s: StoreView, i: int) -> Seq<EventView>
    decreases c.operations.len() - i,
{
    if i < 0 || i >= c.operations.len() {
        Seq::empty()
    } else if c.operations[i] is RollBack {
        if rollback_outcome(c, s).1 is Some {
            rollback_events(c, s, false)
        } else {
            rollback_events(c, s, false) + apply_events_from(c, rollback_outcome(c, s).0, i + 1)
        }
    } else {
        match c.operations[i].outcome(s) {
            Ok(next) => seq![
                EventView::Done {
                    feature: c.name,
                    file_path: c.operations[i].path(),
                    kind: c.operations[i].kind(),
                },
            ] + apply_events_from(c, next, i + 1),
            Err(error) => seq![
                EventView::Failed {
                    feature: c.name,
                    file_path: c.operations[i].path(),
                    kind: c.operations[i].kind(),
                    error,
                },
            ] + rollback_events(c, s, true),
        }
    }
}

/// What applying the feature `c` reports.
pub open spec fn apply_events(c: CharismView, s: StoreView) -> Seq<EventView> {
    apply_events_from(c, s, 0)
}

/// How a run over several files ended, held against what it had to do: the
/// store is the foreseen one, and so is the error, if any.
pub open spec fn ends(
    r: Result<(), CustomError>,
    after: StoreView,
    outcome: (StoreView, Option<ErrorKind>),
) -> bool {
    &&& after == outcome.0
    &&& match outcome.1 {
        None => r is Ok,
        Some(kind) => r matches Err(e) && e@ == raised(kind),
    }
}

/// The touched files of `c`, each followed by the place of its backup.
pub open spec fn touched_stakes(c: CharismView) -> Seq<Seq<char>> {
    Seq::new(
        2 * c.touched.len(),
        |i: int|
            if i % 2 == 0 {
                c.touched[i / 2]
            } else {
                backup_location(c.backup_home, c.touched[i / 2])
            },
    )
}

/// The paths that applying `op` reads or writes: the file of a
/// substitution or deletion, the source and the place of a backup.
pub open spec fn stakes_of(op: PithoView) -> Seq<Seq<char>> {
    match op {
        PithoView::Backup { file_path, to } => seq![file_path, backup_location(to, file_path)],
        PithoView::RollBack { .. } => Seq::empty(),
        PithoView::Replace { file_path, .. } => seq![file_path],
        PithoView::Delete { file_path, .. } => seq![file_path],
    }
}

/// The paths that applying the operations reads or writes, in their order.
pub open spec fn operation_stakes(operations: Seq<PithoView>) -> Seq<Seq<char>>
    decreases operations.len(),
{
    if operations.len() == 0 {
        Seq::empty()
    } else {
        operation_stakes(operations.drop_last()) + stakes_of(operations.last())
    }
}

/// The paths that applying or rolling back the feature `c` reads or writes:
/// the touched files with their backups, then the paths of the operations.
pub open spec fn watched(c: CharismView) -> Seq<Seq<char>> {
    touched_stakes(c) + operation_stakes(c.operations)
}

/// The directory that holds the backups unless another one is set.
pub open spec fn default_backup_home() -> Seq<char> {
    "./Eden"@
}

/// A feature as it is made: no operation but the rollback marker, no file
/// touched, and the backups under the default directory.
pub open spec fn fresh(group: Seq<char>, name: Seq<char>, description: Seq<char>) -> CharismView {
    CharismView {
        group,
        name,
        description,
        operations: seq![PithoView::RollBack { file_path: default_backup_home() }],
        touched: Seq::empty(),
        backup_home: default_backup_home(),
    }
}

/// A feature: a named list of operations that is applied and rolled back
/// as a whole.
pub struct Charism {
    group: String,
    name: String,
    description: String,
    strategy: Strategy,
    backup_files: Vec<String>,
    backup_home: String,
}

impl View for Charism {
    type V = CharismView;

    closed spec fn view(&self) -> CharismView {
        CharismView {
            group: self.group@,
            name: self.name@,
            description: self.description@,
            operations: self.strategy@,
            touched: texts(self.backup_files@),
            backup_home: self.backup_home@,
        }
    }
}

fn holds(files: &Vec<String>, path: &String) -> (b: bool)
    ensures
        b == texts(files@).contains(path@),
{
    let mut i: usize = 0;
    while i < files.len()
        invariant
            i <= files.len(),
            forall|j: int| 0 <= j < i ==> (#[trigger] texts(files@)[j]) != path@,
        decreases files.len() - i,
    {
        if files[i] == *path {
            assert(texts(files@)[i as int] == path@);
            return true;
        }
        i = i + 1;
    }
    false
}

fn copy_texts(list: &Vec<String>) -> (copy: Vec<String>)
    ensures
        texts(copy@) == texts(list@),
{
    let mut copy: Vec<String> = Vec::new();
    let mut i: usize = 0;
    while i < list.len()
        invariant
            i <= list.len(),
            copy.len() == i,
            forall|j: int| 0 <= j < i ==> (#[trigger] copy@[j])@ == list@[j]@,
        decreases list.len() - i,
    {
        copy.push(list[i].clone());
        i = i + 1;
    }
    assert(texts(copy@) =~= texts(list@));
    copy
}

impl Charism {
    /// A feature without operations but the rollback marker, with its
    /// backups under `./Eden`.
    pub fn new(group: &str, name: &str, description: &str) -> (c: Charism)
        ensures
            c@ == fresh(group@, name@, description@),
            well_formed(c@),
    {
        let c = Charism {
            group: group.to_owned(),
            name: name.to_owned(),
            description: description.to_owned(),
            strategy: Strategy::new("./Eden"),
            backup_files: Vec::new(),
            backup_home: "./Eden".to_owned(),
        };
        proof {
            let ops = c@.operations;
            assert(texts(c.backup_files@) =~= Seq::<Seq<char>>::empty());
            assert(ops.drop_last() =~= Seq::<PithoView>::empty());
            assert(touched_of(ops.drop_last()) =~= Seq::<Seq<char>>::empty());
            assert(touched_of(ops) =~= Seq::<Seq<char>>::empty());
        }
        c
    }

    /// Sets the directory that holds the backups.
    pub fn set_backup_home(&mut self, backup_home: &str)
        ensures
            final(self)@ == (CharismView { backup_home: backup_home@, ..old(self)@ }),
    {
        self.backup_home = backup_home.to_owned();
    }

    /// Drops the operations and forgets the touched files. The backups in
    /// the store stay.
    pub fn clear(&mut self)
        ensures
            final(self)@ == cleared(old(self)@),
            well_formed(final(self)@),
    {
        self.strategy = Strategy::new(self.backup_home.as_str());
        self.backup_files = Vec::new();
        proof {
            let ops = self@.operations;
            assert(texts(self.backup_files@) =~= Seq::<Seq<char>>::empty());
            assert(ops.drop_last() =~= Seq::<PithoView>::empty());
            assert(touched_of(ops.drop_last()) =~= Seq::<Seq<char>>::empty());
            assert(touched_of(ops) =~= Seq::<Seq<char>>::empty());
        }
    }

    /// A feature with the same value.
    pub fn to_owned(&self) -> (c: Charism)
        ensures
            c@ == self@,
    {
        Charism {
            group: self.group.clone(),
            name: self.name.clone(),
            description: self.description.clone(),
            strategy: self.strategy.duplicate(),
            backup_files: copy_texts(&self.backup_files),
            backup_home: self.backup_home.clone(),
        }
    }

    /// One line that says what the feature is.
    pub fn show(&self) -> (line: String)
        ensures
            line@ == "The "@ + self@.name + " belongs to the "@ + self@.group + " for "@
                + self@.description,
    {
        let mut line = "The ".to_owned();
        line.append(self.name.as_str());
        line.append(" belongs to the ");
        line.append(self.group.as_str());
        line.append(" for ");
        line.append(self.description.as_str());
        line
    }

    /// The group that the feature belongs to.
    pub fn group(&self) -> (group: &str)
        ensures
            group@ == self@.group,
    {
        self.group.as_str()
    }

    /// The name of the feature.
    pub fn name(&self) -> (name: &str)
        ensures
            name@ == self@.name,
    {
        self.name.as_str()
    }

    /// What the feature does, in a few words.
    pub fn description(&self) -> (description: &str)
        ensures
            description@ == self@.description,
    {
        self.description.as_str()
    }

    /// The operations of the feature.
    pub fn strategy(&self) -> (strategy: &Strategy)
        ensures
            strategy@ == self@.operations,
    {
        &self.strategy
    }

    /// The files that the feature touches.
    pub fn touched_files(&self) -> (files: &Vec<String>)
        ensures
            texts(files@) == self@.touched,
    {
        &self.backup_files
    }

    /// The directory that holds the backups.
    pub fn backup_home(&self) -> (home: &str)
        ensures
            home@ == self@.backup_home,
    {
        self.backup_home.as_str()
    }

    /// The paths that `apply` and `rollback` work on: the touched files
    /// with the places of their backups, then the paths of the operations.
    /// A store that holds these paths as they are is all that the two need.
    pub fn watched_paths(&self) -> (paths: Vec<String>)
        ensures
            texts(paths@) == watched(self@),
    {
        let mut paths: Vec<String> = Vec::new();
        let mut i: usize = 0;
        while i < self.backup_files.len()
            invariant
                i <= self.backup_files.len(),
                paths.len() == 2 * i,
                forall|j: int|
                    0 <= j < 2 * i ==> (#[trigger] paths@[j])@ == touched_stakes(self@)[j],
            decreases self.backup_files.len() - i,
        {
            let file = &self.backup_files[i];
            assert(self@.touched[i as int] == file@);
            let place = backup_path(self.backup_home.as_str(), file.as_str());
            paths.push(file.clone());
            paths.push(place);
            i = i + 1;
        }
        assert(texts(paths@) =~= touched_stakes(self@));
        let ghost ops = self@.operations;
        let mut k: usize = 0;
        assert(ops.take(0) =~= Seq::<PithoView>::empty());
        assert(texts(paths@) =~= touched_stakes(self@) + operation_stakes(ops.take(0)));
        while k < self.strategy.pithos.len()
            invariant
                k <= self.strategy.pithos.len(),
                ops == self@.operations,
                texts(paths@) == touched_stakes(self@) + operation_stakes(ops.take(k as int)),
            decreases self.strategy.pithos.len() - k,
        {
            let ghost listed = texts(paths@);
            let pitho = &self.strategy.pithos[k];
            assert(ops[k as int] == pitho@);
            assert(ops.take(k + 1).drop_last() =~= ops.take(k as int));
            assert(ops.take(k + 1).last() == ops[k as int]);
            match pitho {
                Pitho::Backup(b) => {
                    let place = backup_path(b.to.as_str(), b.file_path.as_str());
                    paths.push(b.file_path.clone());
                    paths.push(place);
                    assert(texts(paths@) =~= listed + stakes_of(pitho@));
                },
                Pitho::RollBack(_) => {
                    assert(texts(paths@) =~= listed + stakes_of(pitho@));
                },
                Pitho::Replace(r) => {
                    paths.push(r.file_path.clone());
                    assert(texts(paths@) =~= listed + stakes_of(pitho@));
                },
                Pitho::Delete(d) => {
                    paths.push(d.file_path.clone());
                    assert(texts(paths@) =~= listed + stakes_of(pitho@));
                },
            }
            assert(texts(paths@) =~= touched_stakes(self@) + operation_stakes(ops.take(k + 1)));
            k = k + 1;
        }
        assert(ops.take(k as int) =~= ops);
        paths
    }

    /// Appends an operation. The first substitution or deletion on a file
    /// backs the file up at once, before anything has changed it; where
    /// that backup fails, the operation is not added.
    pub fn add(&mut self, pitho: Pitho, store: &mut FileStore) -> (r: Result<(), CustomError>)
        ensures
            match add_outcome(old(self)@, old(store)@, pitho@) {
                Ok((c, s)) => r is Ok && final(self)@ == c && final(store)@ == s,
                Err(kind) => r matches Err(e) && e@ == raised(kind) && final(self)@ == old(self)@
                    && final(store)@ == old(store)@,
            },
            well_formed(old(self)@) ==> well_formed(final(self)@),
    {
        let file_path = pitho.get_file_path().to_owned();
        let mutates = match pitho.get_type() {
            ApplyType::Replace | ApplyType::Delete => true,
            _ => false,
        };
        if mutates && !holds(&self.backup_files, &file_path) {
            match backup_from_origin(store, file_path.as_str(), self.backup_home.as_str()) {
                Ok(()) => {},
                Err(e) => {
                    return Err(e);
                },
            }
            self.backup_files.push(file_path);
            assert(texts(self.backup_files@) =~= texts(old(self).backup_files@).push(pitho@.path()));
        }
        self.strategy.add(pitho);
        proof {
            let ops = self@.operations;
            assert(ops.drop_last() =~= old(self)@.operations);
        }
        Ok(())
    }

    /// Applies the operations in their order. The rollback marker at the
    /// head first brings the touched files back to their backups. Where an
    /// operation fails, the feature is rolled back and the rest is left out;
    /// the error of that operation is what comes back.
    pub fn apply(&self, store: &mut FileStore) -> (r: Result<(), CustomError>)
        ensures
            ends(r, final(store)@, apply_outcome(self@, old(store)@)),
    {
        let mut log: Vec<Event> = Vec::new();
        self.apply_logged(store, &mut log)
    }

    /// Applies the feature as `apply` does, and enters into `log` what each
    /// step came to: the name of the feature, the file, the sort of the
    /// step, and its error if it failed.
    pub fn apply_logged(&self, store: &mut FileStore, log: &mut Vec<Event>) -> (r: Result<
        (),
        CustomError,
    >)
        ensures
            ends(r, final(store)@, apply_outcome(self@, old(store)@)),
            reports(final(log)@) == reports(old(log)@) + apply_events(self@, old(store)@),
    {
        let ghost whole = reports(log@) + apply_events(self@, store@);
        let mut i: usize = 0;
        while i < self.strategy.pithos.len()
            invariant
                i <= self.strategy.pithos.len(),
                apply_outcome(self@, old(store)@) == apply_from(self@, store@, i as int),
                whole == reports(old(log)@) + apply_events(self@, old(store)@),
                whole == reports(log@) + apply_events_from(self@, store@, i as int),
            decreases self.strategy.pithos.len() - i,
        {
            let pitho = &self.strategy.pithos[i];
            let ghost before = store@;
            let ghost listed = reports(log@);
            assert(self@.operations[i as int] == pitho@);
            match pitho.get_type() {
                ApplyType::RollBack => {
                    match self.rollback_logged(store, false, log) {
                        Ok(()) => {
                            assert(whole =~= reports(log@) + apply_events_from(
                                self@,
                                store@,
                                i + 1,
                            ));
                        },
                        Err(e) => {
                            return Err(e);
                        },
                    }
                },
                kind => {
                    match pitho.do_apply(store) {
                        Ok(()) => {
                            log.push(
                                Event::Done {
                                    feature: self.name.clone(),
                                    file_path: pitho.get_file_path().to_owned(),
                                    kind,
                                },
                            );
                            proof {
                                let event = EventView::Done {
                                    feature: self@.name,
                                    file_path: pitho@.path(),
                                    kind: pitho@.kind(),
                                };
                                assert(reports(log@) =~= listed.push(event));
                                assert(whole =~= reports(log@) + apply_events_from(
                                    self@,
                                    store@,
                                    i + 1,
                                ));
                            }
                        },
                        Err(err) => {
                            log.push(
                                Event::Failed {
                                    feature: self.name.clone(),
                                    file_path: pitho.get_file_path().to_owned(),
                                    kind,
                                    error: err.kind,
                                },
                            );
                            proof {
                                let event = EventView::Failed {
                                    feature: self@.name,
                                    file_path: pitho@.path(),
                                    kind: pitho@.kind(),
                                    error: err.kind,
                                };
                                assert(reports(log@) =~= listed.push(event));
                            }
                            let ghost told = reports(log@);
                            let _ = self.rollback_logged(store, true, log);
                            assert(whole =~= told + rollback_events(self@, before, true));
                            return Err(err);
                        },
                    }
                },
            }
            i = i + 1;
        }
        assert(whole =~= reports(log@));
        Ok(())
    }

    /// Restores the touched files from their backups, in the order in which
    /// they were first touched. The first file that cannot be restored ends
    /// the run; the files behind it stay as they are. `is_over` tells the
    /// rollback that ends a feature's use from the one that `apply` begins
    /// with: the files are treated alike, the report differs (see
    /// `rollback_logged`).
    pub fn rollback(&self, store: &mut FileStore, is_over: bool) -> (r: Result<(), CustomError>)
        ensures
            ends(r, final(store)@, rollback_outcome(self@, old(store)@)),
    {
        let mut log: Vec<Event> = Vec::new();
        self.rollback_logged(store, is_over, &mut log)
    }

    /// Rolls the feature back as `rollback` does, and enters into `log`
    /// what became of each file. Where `is_over` is set and every file was
    /// restored, a last event says that the feature is over.
    pub fn rollback_logged(&self, store: &mut FileStore, is_over: bool, log: &mut Vec<Event>) -> (r:
        Result<(), CustomError>)
        ensures
            ends(r, final(store)@, rollback_outcome(self@, old(store)@)),
            reports(final(log)@) == reports(old(log)@) + rollback_events(
                self@,
                old(store)@,
                is_over,
            ),
    {
        let ghost start = reports(log@) + rollback_events_from(self@, store@, 0);
        let mut i: usize = 0;
        while i < self.backup_files.len()
            invariant
                i <= self.backup_files.len(),
                rollback_outcome(self@, old(store)@) == rollback_from(
                    self@.touched,
                    self@.backup_home,
                    store@,
                    i as int,
                ),
                start == reports(old(log)@) + rollback_events_from(self@, old(store)@, 0),
                start == reports(log@) + rollback_events_from(self@, store@, i as int),
            decreases self.backup_files.len() - i,
        {
            let file = &self.backup_files[i];
            let ghost listed = reports(log@);
            assert(self@.touched[i as int] == file@);
            match rollback_to_origin(store, self.backup_home.as_str(), file.as_str()) {
                Ok(()) => {
                    log.push(
                        Event::Done {
                            feature: self.name.clone(),
                            file_path: file.clone(),
                            kind: ApplyType::RollBack,
                        },
                    );
                    proof {
                        let event = EventView::Done {
                            feature: self@.name,
                            file_path: file@,
                            kind: ApplyType::RollBack,
                        };
                        assert(reports(log@) =~= listed.push(event));
                        assert(start =~= reports(log@) + rollback_events_from(
                            self@,
                            store@,
                            i + 1,
                        ));
                    }
                },
                Err(e) => {
                    log.push(
                        Event::Failed {
                            feature: self.name.clone(),
                            file_path: file.clone(),
                            kind: ApplyType::RollBack,
                            error: e.kind,
                        },
                    );
                    proof {
                        let event = EventView::Failed {
                            feature: self@.name,
                            file_path: file@,
                            kind: ApplyType::RollBack,
                            error: e.kind,
                        };
                        assert(reports(log@) =~= listed.push(event));
                        assert(start =~= reports(log@));
                    }
                    return Err(e);
                },
            }
            i = i + 1;
        }
        assert(start =~= reports(log@));
        if is_over {
            let ghost listed = reports(log@);
            log.push(Event::Over { feature: self.name.clone() });
            assert(reports(log@) =~= listed.push(EventView::Over { feature: self@.name }));
        }
        Ok(())
    }
}

} // verus!
