use vstd::prelude::*;
use vstd::slice::slice_index_get;
use crate::models::Task;
use crate::workspace::{make_task_path, task_dir_of, path_is_under, str_is_under, join_path_str};

verus! {

/// The association that a key-value list stands for: later entries win,
/// though the lists kept here always have unique keys.
pub open spec fn entries_map<V>(s: Seq<(usize, V)>) -> Map<usize, V>
    decreases s.len(),
{
    if s.len() == 0 {
        Map::empty()
    } else {
        entries_map(s.drop_last()).insert(s.last().0, s.last().1)
    }
}

/// True when no two entries of the list share a key.
pub open spec fn unique_keys<V>(s: Seq<(usize, V)>) -> bool {
    forall|i: int, j: int| 0 <= i < j < s.len() ==> (#[trigger] s[i]).0 != (#[trigger] s[j]).0
}

/// A key is in the association exactly when some entry carries it.
pub proof fn lemma_entries_map_domain<V>(s: Seq<(usize, V)>, k: usize)
    ensures
        entries_map(s).contains_key(k) <==> exists|i: int| 0 <= i < s.len() && (#[trigger] s[i]).0
            == k,
    decreases s.len(),
{
    if s.len() > 0 {
        lemma_entries_map_domain(s.drop_last(), k);
        if entries_map(s).contains_key(k) {
            if k == s.last().0 {
                assert(s[s.len() - 1].0 == k);
            } else {
                let i = choose|i: int|
                    0 <= i < s.drop_last().len() && (#[trigger] s.drop_last()[i]).0 == k;
                assert(s[i].0 == k);
            }
        }
        if exists|i: int| 0 <= i < s.len() && (#[trigger] s[i]).0 == k {
            let i = choose|i: int| 0 <= i < s.len() && (#[trigger] s[i]).0 == k;
            if i < s.len() - 1 {
                assert(s.drop_last()[i].0 == k);
            }
        }
    }
}

/// With unique keys, each entry's key maps to that entry's value.
pub proof fn lemma_entries_map_value<V>(s: Seq<(usize, V)>, i: int)
    requires
        unique_keys(s),
        0 <= i < s.len(),
    ensures
        entries_map(s).contains_key(s[i].0),
        entries_map(s)[s[i].0] == s[i].1,
    decreases s.len(),
{
    if i == s.len() - 1 {
    } else {
        assert(unique_keys(s.drop_last())) by {
            assert(forall|x: int, y: int|
                0 <= x < y < s.drop_last().len() ==> (#[trigger] s.drop_last()[x]).0 != (
                #[trigger] s.drop_last()[y]).0) by {
                assert(forall|x: int|
                    0 <= x < s.drop_last().len() ==> #[trigger] s.drop_last()[x] == s[x]);
            };
        };
        assert(s.drop_last()[i] == s[i]);
        lemma_entries_map_value(s.drop_last(), i);
        assert(s[s.len() - 1].0 != s[i].0);
    }
}

/// True when the catalog's task ids and ranks are each unique, as one fetch
/// of the remote task list guarantees.
pub open spec fn catalog_wf(tasks: Seq<Task>) -> bool {
    &&& forall|i: int, j: int|
        0 <= i < j < tasks.len() ==> (#[trigger] tasks[i]).taskid != (#[trigger] tasks[j]).taskid
    &&& forall|i: int, j: int|
        0 <= i < j < tasks.len() ==> (#[trigger] tasks[i]).order_by != (
        #[trigger] tasks[j]).order_by
}

/// Relies on dirs::home_dir: the user's home directory, when the platform
/// reports one. The result depends on the environment, so nothing more is
/// promised of it.
#[verifier::external_body]
fn home_dir_string() -> Option<String> {
    dirs::home_dir().map(|p| p.to_string_lossy().into_owned())
}

/// The default workspace root: `<home>/sbcli/tasks`, or plain `sbcli` when
/// no home directory is known.
fn default_root() -> String {
    match home_dir_string() {
        Some(home) => {
            let base = join_path_str(home.as_str(), "sbcli");
            join_path_str(base.as_str(), "tasks")
        },
        None => String::from_str("sbcli"),
    }
}

/// Task-related state of the tool: the catalog snapshot, the order in which
/// tasks are to be solved, their workspace paths, and the solved tasks.
#[derive(Debug)]
pub struct TaskDirectory {
    path: String,
    tasks: Vec<Task>,
    solved_tasks_ids: Vec<usize>,
    order: Vec<(usize, usize)>,
    directory: Vec<(usize, String)>,
}

impl TaskDirectory {
    /// The rank of each task by id, as an association.
    pub closed spec fn order_map(self) -> Map<usize, usize> {
        entries_map(self.order@)
    }

    /// The workspace directory of each task by id, as an association.
    pub closed spec fn dir_map(self) -> Map<usize, String> {
        entries_map(self.directory@)
    }

    /// The catalog snapshot this directory was built from.
    pub closed spec fn tasks_seq(self) -> Seq<Task> {
        self.tasks@
    }

    /// The solved task ids, in insertion order.
    pub closed spec fn solved_seq(self) -> Seq<usize> {
        self.solved_tasks_ids@
    }

    /// The workspace root path.
    pub closed spec fn root_path(self) -> Seq<char> {
        self.path@
    }

    /// Well-formed task state: the order and directory lists mirror the
    /// catalog entry by entry, and the catalog's ids and ranks are unique.
    pub closed spec fn wf(self) -> bool {
        &&& catalog_wf(self.tasks@)
        &&& self.order@.len() == self.tasks@.len()
        &&& forall|i: int|
            0 <= i < self.tasks@.len() ==> (#[trigger] self.order@[i]) == (
            self.tasks@[i].taskid,
            self.tasks@[i].order_by,
            )
        &&& self.directory@.len() == self.tasks@.len()
        &&& forall|i: int|
            0 <= i < self.tasks@.len() ==> (#[trigger] self.directory@[i]).0
                == self.tasks@[i].taskid
        &&& forall|i: int|
            0 <= i < self.tasks@.len() ==> (#[trigger] self.directory@[i]).1@ == task_dir_of(
                self.path@,
                self.tasks@[i],
            )
    }

    /// The order and directory lists of a well-formed directory have unique
    /// keys: they are keyed by the unique task ids.
    proof fn lemma_wf_unique_keys(self)
        requires
            self.wf(),
        ensures
            unique_keys(self.order@),
            unique_keys(self.directory@),
    {
    }

    /// Builds the task state for one catalog snapshot under the given
    /// workspace root, with nothing solved yet.
    pub fn with_root(path: String, tasks: Vec<Task>) -> (r: TaskDirectory)
        requires
            catalog_wf(tasks@),
        ensures
            r.wf(),
            r.root_path() == path@,
            r.tasks_seq() == tasks@,
            r.solved_seq() == Seq::<usize>::empty(),
    {
        let order = Self::get_order(tasks.as_slice());
        let mut directory: Vec<(usize, String)> = Vec::new();
        let mut i: usize = 0;
        while i < tasks.len()
            invariant
                0 <= i <= tasks@.len(),
                directory@.len() == i,
                forall|j: int|
                    0 <= j < i ==> (#[trigger] directory@[j]).0 == tasks@[j].taskid,
                forall|j: int|
                    0 <= j < i ==> (#[trigger] directory@[j]).1@ == task_dir_of(
                        path@,
                        tasks@[j],
                    ),
            decreases tasks@.len() - i,
        {
            let task = &tasks[i];
            let (dir_path, _) = make_task_path(task, path.as_str());
            directory.push((task.taskid, dir_path));
            i = i + 1;
        }
        TaskDirectory { path, tasks, solved_tasks_ids: Vec::new(), order, directory }
    }

    /// Builds the task state for one catalog snapshot under the default
    /// workspace root.
    pub fn new(tasks: Vec<Task>) -> (r: TaskDirectory)
        requires
            catalog_wf(tasks@),
        ensures
            r.wf(),
            r.tasks_seq() == tasks@,
            r.solved_seq() == Seq::<usize>::empty(),
    {
        Self::with_root(default_root(), tasks)
    }

    /// The rank of each task keyed by its id; the rank is the
    /// server-supplied ordering field of the task.
    pub fn get_order(tasks: &[Task]) -> (r: Vec<(usize, usize)>)
        ensures
            r@.len() == tasks@.len(),
            forall|i: int|
                0 <= i < tasks@.len() ==> (#[trigger] r@[i]) == (
                tasks@[i].taskid,
                tasks@[i].order_by,
                ),
    {
        let mut order: Vec<(usize, usize)> = Vec::new();
        let mut i: usize = 0;
        while i < tasks.len()
            invariant
                0 <= i <= tasks@.len(),
                order@.len() == i,
                forall|j: int|
                    0 <= j < i ==> (#[trigger] order@[j]) == (
                    tasks@[j].taskid,
                    tasks@[j].order_by,
                    ),
            decreases tasks@.len() - i,
        {
            let task = slice_index_get(tasks, i);
            order.push((task.taskid, task.order_by));
            i = i + 1;
        }
        order
    }

    /// Looks a task's rank up by id.
    fn order_lookup(&self, id: usize) -> (r: Option<usize>)
        requires
            self.wf(),
        ensures
            r is Some <==> self.order_map().contains_key(id),
            r is Some ==> self.order_map()[id] == r->0,
    {
        let mut i: usize = 0;
        while i < self.order.len()
            invariant
                self.wf(),
                0 <= i <= self.order@.len(),
                forall|j: int| 0 <= j < i ==> (#[trigger] self.order@[j]).0 != id,
            decreases self.order@.len() - i,
        {
            let (k, v) = self.order[i];
            if k == id {
                proof {
                    self.lemma_wf_unique_keys();
                    lemma_entries_map_value(self.order@, i as int);
                }
                return Some(v);
            }
            i = i + 1;
        }
        proof {
            lemma_entries_map_domain(self.order@, id);
        }
        None
    }

    /// Returns the id of the next task to be solved: the frontier task
    /// strictly above the highest solved rank — with nothing solved, the
    /// globally lowest-ranked task — or the sentinel 0 when no task lies
    /// above the frontier.
    pub fn get_next_task(&self) -> (r: usize)
        requires
            self.wf(),
        ensures
            next_task_ok(r, self.solved_seq(), self.order_map()),
    {
        let ghost solved = self.solved_tasks_ids@;
        let ghost order_map = self.order_map();
        let mut hi: Option<usize> = None;
        let mut i: usize = 0;
        while i < self.solved_tasks_ids.len()
            invariant
                self.wf(),
                solved == self.solved_tasks_ids@,
                order_map == self.order_map(),
                0 <= i <= solved.len(),
                hi is None ==> max_solved_order(solved.take(i as int), order_map) == -1,
                hi is Some ==> max_solved_order(solved.take(i as int), order_map) == hi->0,
            decreases solved.len() - i,
        {
            let id = self.solved_tasks_ids[i];
            let o = self.order_lookup(id);
            proof {
                assert(solved.take(i as int + 1).drop_last() =~= solved.take(i as int));
                assert(solved.take(i as int + 1).last() == id);
            }
            match (hi, o) {
                (None, Some(v)) => { hi = Some(v); },
                (Some(h), Some(v)) => {
                    if v > h {
                        hi = Some(v);
                    }
                },
                _ => {},
            }
            i = i + 1;
        }
        proof {
            assert(solved.take(solved.len() as int) =~= solved);
        }
        let ghost hi_int: int = if hi is Some {
            hi->0 as int
        } else {
            -1
        };
        let mut best: Option<(usize, usize)> = None;
        let mut k: usize = 0;
        while k < self.order.len()
            invariant
                self.wf(),
                order_map == self.order_map(),
                0 <= k <= self.order@.len(),
                hi is Some ==> hi_int == hi->0 as int,
                hi is None ==> hi_int == -1,
                best is None ==> forall|j: int|
                    0 <= j < k ==> (#[trigger] self.order@[j]).1 <= hi_int,
                best is Some ==> exists|j: int|
                    0 <= j < k && (#[trigger] self.order@[j]) == best->0,
                best is Some ==> (best->0).1 > hi_int,
                best is Some ==> forall|j: int|
                    0 <= j < k && (#[trigger] self.order@[j]).1 > hi_int ==> (best->0).1
                        < self.order@[j].1 || ((best->0).1 == self.order@[j].1 && (best->0).0
                        <= self.order@[j].0),
            decreases self.order@.len() - k,
        {
            let (id, rank) = self.order[k];
            let qualifies = match hi {
                None => true,
                Some(h) => rank > h,
            };
            if qualifies {
                match best {
                    None => { best = Some((id, rank)); },
                    Some((bid, br)) => {
                        if rank < br || (rank == br && id < bid) {
                            best = Some((id, rank));
                        }
                    },
                }
            }
            k = k + 1;
        }
        proof {
            assert(hi_int == max_solved_order(solved, order_map));
        }
        match best {
            None => {
                proof {
                    self.lemma_wf_unique_keys();
                    assert forall|t: usize| order_map.contains_key(t) implies order_map[t]
                        <= hi_int by {
                        lemma_entries_map_domain(self.order@, t);
                        let j = choose|j: int|
                            0 <= j < self.order@.len() && (#[trigger] self.order@[j]).0 == t;
                        lemma_entries_map_value(self.order@, j);
                    }
                }
                0
            },
            Some((bid, br)) => {
                proof {
                    self.lemma_wf_unique_keys();
                    let j = choose|j: int|
                        0 <= j < self.order@.len() && (#[trigger] self.order@[j]) == (bid, br);
                    lemma_entries_map_value(self.order@, j);
                    assert forall|t: usize|
                        order_map.contains_key(t) && order_map[t] > hi_int implies br
                        < order_map[t] || (br == order_map[t] && bid <= t) by {
                        lemma_entries_map_domain(self.order@, t);
                        let jt = choose|jt: int|
                            0 <= jt < self.order@.len() && (#[trigger] self.order@[jt]).0 == t;
                        lemma_entries_map_value(self.order@, jt);
                        assert(self.order@[jt].1 > hi_int);
                    }
                    assert(is_frontier(bid, hi_int, order_map));
                }
                bid
            },
        }
    }
}

/// The highest rank among the solved ids that the order knows, or -1 when
/// none of them has a rank — in particular when nothing is solved.
pub open spec fn max_solved_order(solved: Seq<usize>, order: Map<usize, usize>) -> int
    decreases solved.len(),
{
    if solved.len() == 0 {
        -1
    } else {
        let rest = max_solved_order(solved.drop_last(), order);
        let last = solved.last();
        if order.contains_key(last) && order[last] > rest {
            order[last] as int
        } else {
            rest
        }
    }
}

/// `next` is the frontier task above `hi`: it has a rank strictly above
/// `hi`, and every task ranked above `hi` either ranks higher than `next`
/// or shares its rank and has no smaller id.
pub open spec fn is_frontier(next: usize, hi: int, order: Map<usize, usize>) -> bool {
    &&& order.contains_key(next)
    &&& order[next] > hi
    &&& forall|t: usize|
        #[trigger] order.contains_key(t) && order[t] > hi ==> order[next] < order[t] || (
        order[next] == order[t] && next <= t)
}

/// No task at all ranks above `hi`.
pub open spec fn no_frontier(hi: int, order: Map<usize, usize>) -> bool {
    forall|t: usize| #[trigger] order.contains_key(t) ==> order[t] <= hi
}

/// What the next task must be, given the solved ids and the rank of every
/// task: the frontier task strictly above the highest solved rank, or the
/// sentinel 0 when no task ranks above it.
pub open spec fn next_task_ok(r: usize, solved: Seq<usize>, order: Map<usize, usize>) -> bool {
    let hi = max_solved_order(solved, order);
    if no_frontier(hi, order) {
        r == 0
    } else {
        is_frontier(r, hi, order)
    }
}

/// The solved set after recording one id: unchanged when the id is already
/// present, extended by it otherwise.
pub open spec fn add_solved_spec(s: Seq<usize>, id: usize) -> Seq<usize> {
    if s.contains(id) {
        s
    } else {
        s.push(id)
    }
}

/// True when `v` holds `x`.
fn contains_usize(v: &Vec<usize>, x: usize) -> (r: bool)
    ensures
        r == v@.contains(x),
{
    let mut i: usize = 0;
    while i < v.len()
        invariant
            0 <= i <= v@.len(),
            forall|j: int| 0 <= j < i ==> v@[j] != x,
        decreases v@.len() - i,
    {
        if v[i] == x {
            return true;
        }
        i = i + 1;
    }
    false
}

/// Overall progress state: the task totals, the cached next task, and the
/// task directory itself. The counters and the next-task id are caches:
/// they are always recomputed from the solved ids and the order, never
/// trusted on their own.
#[derive(Debug)]
pub struct Meta {
    pub total_tasks: usize,
    pub solved_tasks: usize,
    pub next_task_id: usize,
    pub task_directory: TaskDirectory,
}

impl Meta {
    /// The task directory held by this snapshot.
    pub open spec fn task_dir(self) -> TaskDirectory {
        self.task_directory
    }

    /// Well-formed snapshot: the directory is well-formed, the counters
    /// match what they count, and the cached next-task id satisfies the
    /// next-task characterization over the solved ids and the order.
    pub open spec fn wf(self) -> bool {
        &&& self.task_dir().wf()
        &&& self.total_tasks == self.task_dir().tasks_seq().len()
        &&& self.solved_tasks == self.task_dir().solved_seq().len()
        &&& next_task_ok(
            self.next_task_id,
            self.task_dir().solved_seq(),
            self.task_dir().order_map(),
        )
    }

    /// Builds a fresh snapshot for one catalog fetch: nothing solved, the
    /// next task derived from the catalog alone.
    pub fn new(tasks: Vec<Task>) -> (r: Meta)
        requires
            catalog_wf(tasks@),
        ensures
            r.wf(),
            r.total_tasks == tasks@.len(),
            r.solved_tasks == 0,
            r.task_dir().tasks_seq() == tasks@,
            r.task_dir().solved_seq() == Seq::<usize>::empty(),
    {
        let total = tasks.len();
        let task_directory = TaskDirectory::new(tasks);
        let next_task_id = task_directory.get_next_task();
        Meta { total_tasks: total, solved_tasks: 0, next_task_id, task_directory }
    }

    /// Rebuilds a snapshot from its persisted parts: the workspace root,
    /// the catalog, and the solved ids. The order, the workspace paths, the
    /// counters and the next task are all derived anew — the persisted
    /// caches are never a source of truth.
    pub fn restore(root: String, tasks: Vec<Task>, solved: Vec<usize>) -> (r: Meta)
        requires
            catalog_wf(tasks@),
        ensures
            r.wf(),
            r.task_dir().tasks_seq() == tasks@,
            r.task_dir().solved_seq() == solved@,
            r.task_dir().root_path() == root@,
            r.total_tasks == tasks@.len(),
    {
        let task_directory = TaskDirectory::with_root(root, tasks);
        let total = task_directory.tasks.len();
        let mut m = Meta { total_tasks: total, solved_tasks: 0, next_task_id: 0, task_directory };
        m.set_solved_tasks_ids(solved);
        m
    }

    /// The task directory of this snapshot.
    pub fn task_directory(&self) -> (r: &TaskDirectory)
        ensures
            *r == self.task_dir(),
    {
        &self.task_directory
    }

    /// The catalog snapshot.
    pub fn tasks(&self) -> (r: &Vec<Task>)
        ensures
            r@ == self.task_dir().tasks_seq(),
    {
        &self.task_directory.tasks
    }

    /// The workspace root directory.
    pub fn directory_dir(&self) -> (r: &String)
        ensures
            r@ == self.task_dir().root_path(),
    {
        &self.task_directory.path
    }

    /// The workspace directory of the task with the given id, when the
    /// catalog knows that id.
    pub fn get_task_path(&self, task_id: usize) -> (r: Option<String>)
        requires
            self.wf(),
        ensures
            r is Some <==> self.task_dir().dir_map().contains_key(task_id),
            r is Some ==> r->0 == self.task_dir().dir_map()[task_id],
    {
        let directory = &self.task_directory.directory;
        let mut i: usize = 0;
        while i < directory.len()
            invariant
                self.wf(),
                directory == &self.task_dir().directory,
                0 <= i <= directory@.len(),
                forall|j: int| 0 <= j < i ==> (#[trigger] directory@[j]).0 != task_id,
            decreases directory@.len() - i,
        {
            let e = &directory[i];
            if e.0 == task_id {
                proof {
                    self.task_directory.lemma_wf_unique_keys();
                    lemma_entries_map_value(directory@, i as int);
                }
                return Some(e.1.clone());
            }
            i = i + 1;
        }
        proof {
            lemma_entries_map_domain(directory@, task_id);
        }
        None
    }

    /// The index of the first directory entry whose directory contains the
    /// path, if any entry does.
    fn workspace_match_index(&self, path: &str) -> (r: Option<usize>)
        ensures
            r is Some ==> 0 <= r->0 < self.task_dir().directory@.len() && path_is_under(
                path@,
                self.task_dir().directory@[r->0 as int].1@,
            ),
            r is None ==> forall|j: int|
                0 <= j < self.task_dir().directory@.len() ==> !path_is_under(
                    path@,
                    (#[trigger] self.task_dir().directory@[j]).1@,
                ),
    {
        let directory = &self.task_directory.directory;
        let mut i: usize = 0;
        while i < directory.len()
            invariant
                directory == &self.task_dir().directory,
                0 <= i <= directory@.len(),
                forall|j: int|
                    0 <= j < i ==> !path_is_under(path@, (#[trigger] directory@[j]).1@),
            decreases directory@.len() - i,
        {
            if str_is_under(path, directory[i].1.as_str()) {
                return Some(i);
            }
            i = i + 1;
        }
        None
    }

    /// The workspace directory, among the known task directories, that
    /// contains the given path, when one does.
    pub fn find_workspace_directory(&self, path: &str) -> (r: Option<String>)
        requires
            self.wf(),
        ensures
            r is Some ==> exists|id: usize|
                #[trigger] self.task_dir().dir_map().contains_key(id)
                    && self.task_dir().dir_map()[id]@ == r->0@ && path_is_under(path@, r->0@),
            r is None ==> forall|id: usize|
                #[trigger] self.task_dir().dir_map().contains_key(id) ==> !path_is_under(
                    path@,
                    self.task_dir().dir_map()[id]@,
                ),
    {
        let directory = &self.task_directory.directory;
        match self.workspace_match_index(path) {
            Some(i) => {
                proof {
                    self.task_directory.lemma_wf_unique_keys();
                    lemma_entries_map_value(directory@, i as int);
                    let id = directory@[i as int].0;
                    assert(self.task_dir().dir_map().contains_key(id));
                    assert(self.task_dir().dir_map()[id] == directory@[i as int].1);
                }
                Some(directory[i].1.clone())
            },
            None => {
                proof {
                    self.lemma_no_match_means_none_under(path@);
                }
                None
            },
        }
    }

    /// Reverse lookup through the workspace map: the id of the task whose
    /// directory contains the given path, when one does.
    pub fn get_task_id_from_workspace(&self, task_path: &str) -> (r: Option<usize>)
        requires
            self.wf(),
        ensures
            r is Some ==> #[trigger] self.task_dir().dir_map().contains_key(r->0)
                && path_is_under(task_path@, self.task_dir().dir_map()[r->0]@),
            r is None ==> forall|id: usize|
                #[trigger] self.task_dir().dir_map().contains_key(id) ==> !path_is_under(
                    task_path@,
                    self.task_dir().dir_map()[id]@,
                ),
    {
        let directory = &self.task_directory.directory;
        match self.workspace_match_index(task_path) {
            Some(i) => {
                proof {
                    self.task_directory.lemma_wf_unique_keys();
                    lemma_entries_map_value(directory@, i as int);
                }
                Some(directory[i].0)
            },
            None => {
                proof {
                    self.lemma_no_match_means_none_under(task_path@);
                }
                None
            },
        }
    }

    /// When no directory entry contains a path, no id of the directory
    /// association leads to a directory that contains it.
    proof fn lemma_no_match_means_none_under(self, path: Seq<char>)
        requires
            self.wf(),
            forall|j: int|
                0 <= j < self.task_dir().directory@.len() ==> !path_is_under(
                    path,
                    (#[trigger] self.task_dir().directory@[j]).1@,
                ),
        ensures
            forall|id: usize|
                #[trigger] self.task_dir().dir_map().contains_key(id) ==> !path_is_under(
                    path,
                    self.task_dir().dir_map()[id]@,
                ),
    {
        let directory = self.task_dir().directory@;
        self.task_directory.lemma_wf_unique_keys();
        assert forall|id: usize| #[trigger]
            self.task_dir().dir_map().contains_key(id) implies !path_is_under(
            path,
            self.task_dir().dir_map()[id]@,
        ) by {
            lemma_entries_map_domain(directory, id);
            let j = choose|j: int| 0 <= j < directory.len() && (#[trigger] directory[j]).0 == id;
            lemma_entries_map_value(directory, j);
        }
    }

    /// The solved task ids, in insertion order.
    pub fn solved_task_ids(&self) -> (r: &Vec<usize>)
        ensures
            r@ == self.task_dir().solved_seq(),
    {
        &self.task_directory.solved_tasks_ids
    }

    /// Replaces the whole solved set, as a bulk remote progress fetch
    /// delivers it, and recomputes the solved counter and the next task.
    pub fn set_solved_tasks_ids(&mut self, solved_tasks_ids: Vec<usize>)
        requires
            old(self).task_dir().wf(),
            old(self).total_tasks == old(self).task_dir().tasks_seq().len(),
        ensures
            final(self).wf(),
            final(self).task_dir().solved_seq() == solved_tasks_ids@,
            final(self).task_dir().tasks_seq() == old(self).task_dir().tasks_seq(),
            final(self).task_dir().order_map() == old(self).task_dir().order_map(),
            final(self).task_dir().dir_map() == old(self).task_dir().dir_map(),
            final(self).task_dir().root_path() == old(self).task_dir().root_path(),
            final(self).total_tasks == old(self).total_tasks,
    {
        self.task_directory.solved_tasks_ids = solved_tasks_ids;
        self.update();
    }

    /// Records one solved task, immediately after a successful submission.
    /// Recording an id that is already present changes nothing at all.
    pub fn add_solved_task_id(&mut self, task_id: usize)
        requires
            old(self).wf(),
        ensures
            final(self).wf(),
            final(self).task_dir().solved_seq() == add_solved_spec(
                old(self).task_dir().solved_seq(),
                task_id,
            ),
            final(self).task_dir().tasks_seq() == old(self).task_dir().tasks_seq(),
            final(self).task_dir().order_map() == old(self).task_dir().order_map(),
            final(self).task_dir().dir_map() == old(self).task_dir().dir_map(),
            final(self).task_dir().root_path() == old(self).task_dir().root_path(),
            final(self).total_tasks == old(self).total_tasks,
            old(self).task_dir().solved_seq().contains(task_id) ==> *final(self) == *old(self),
    {
        if contains_usize(&self.task_directory.solved_tasks_ids, task_id) {
            return;
        }
        self.task_directory.solved_tasks_ids.push(task_id);
        self.update();
    }

    /// Recomputes the caches — the solved counter and the next-task id —
    /// from the solved ids and the order.
    pub fn update(&mut self)
        requires
            old(self).task_dir().wf(),
            old(self).total_tasks == old(self).task_dir().tasks_seq().len(),
        ensures
            final(self).wf(),
            final(self).task_dir() == old(self).task_dir(),
            final(self).total_tasks == old(self).total_tasks,
    {
        self.solved_tasks = self.task_directory.solved_tasks_ids.len();
        self.next_task_id = self.task_directory.get_next_task();
    }
}

/// Recording one solved id twice is the same as recording it once: neither
/// the solved ids nor the next task derived from them change with the
/// second recording.
pub proof fn lemma_add_solved_idempotent(
    s: Seq<usize>,
    id: usize,
    n1: usize,
    n2: usize,
    order: Map<usize, usize>,
)
    requires
        next_task_ok(n1, add_solved_spec(s, id), order),
        next_task_ok(n2, add_solved_spec(add_solved_spec(s, id), id), order),
    ensures
        add_solved_spec(add_solved_spec(s, id), id) == add_solved_spec(s, id),
        n1 == n2,
{
    assert(add_solved_spec(s, id).contains(id)) by {
        if !s.contains(id) {
            assert(s.push(id)[s.len() as int] == id);
        }
    };
    lemma_next_task_unique(n1, n2, add_solved_spec(s, id), order);
}

/// True when a catalog is present, that is, when a sync has run at least
/// once and filled the snapshot.
pub fn ensure_tasks_init(meta: &Meta) -> (r: bool)
    ensures
        r == (meta.task_dir().tasks_seq().len() > 0),
{
    meta.tasks().len() > 0
}

/// Builds the initial snapshot when none was stored yet: the stored
/// snapshot is replaced exactly when it still holds no tasks.
pub fn init_meta(existing: &Meta, tasks: Vec<Task>) -> (r: Option<Meta>)
    requires
        catalog_wf(tasks@),
    ensures
        r is Some <==> existing.total_tasks == 0,
        r is Some ==> (r->0).wf() && (r->0).task_dir().tasks_seq() == tasks@ && (
        r->0).task_dir().solved_seq() == Seq::<usize>::empty(),
{
    if existing.total_tasks == 0 {
        Some(Meta::new(tasks))
    } else {
        None
    }
}

/// Applies a freshly fetched remote progress list: replaces the solved set
/// and recomputes the solved counter and the next task.
pub fn update_meta_progress(meta: &mut Meta, solved: Vec<usize>)
    requires
        old(meta).task_dir().wf(),
        old(meta).total_tasks == old(meta).task_dir().tasks_seq().len(),
    ensures
        final(meta).wf(),
        final(meta).task_dir().solved_seq() == solved@,
        final(meta).task_dir().tasks_seq() == old(meta).task_dir().tasks_seq(),
        final(meta).task_dir().order_map() == old(meta).task_dir().order_map(),
        final(meta).total_tasks == old(meta).total_tasks,
{
    meta.set_solved_tasks_ids(solved);
}

/// Resolves which task to start — the given id, or the cached next task
/// when none is given — and returns that task's workspace directory.
pub fn start_task(meta: &Meta, task_id: Option<usize>) -> (r: Option<String>)
    requires
        meta.wf(),
    ensures
        ({
            let id = if task_id is Some {
                task_id->0
            } else {
                meta.next_task_id
            };
            &&& r is Some <==> meta.task_dir().dir_map().contains_key(id)
            &&& r is Some ==> r->0 == meta.task_dir().dir_map()[id]
        }),
{
    let id = match task_id {
        Some(id) => id,
        None => meta.next_task_id,
    };
    meta.get_task_path(id)
}

/// The frontier above a bound is unique: two ids that both satisfy the
/// frontier characterization are equal.
pub proof fn lemma_frontier_unique(n1: usize, n2: usize, hi: int, order: Map<usize, usize>)
    requires
        is_frontier(n1, hi, order),
        is_frontier(n2, hi, order),
    ensures
        n1 == n2,
{
    assert(order.contains_key(n1) && order[n1] > hi);
    assert(order.contains_key(n2) && order[n2] > hi);
}

/// The next task is determined by the solved ids and the order alone: any
/// two values that satisfy the characterization agree. The cached next-task
/// id is therefore always recoverable from those two.
pub proof fn lemma_next_task_unique(
    r1: usize,
    r2: usize,
    solved: Seq<usize>,
    order: Map<usize, usize>,
)
    requires
        next_task_ok(r1, solved, order),
        next_task_ok(r2, solved, order),
    ensures
        r1 == r2,
{
    let hi = max_solved_order(solved, order);
    if !no_frontier(hi, order) {
        lemma_frontier_unique(r1, r2, hi, order);
    }
}

} // verus!
