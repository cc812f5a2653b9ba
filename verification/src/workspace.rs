use vstd::prelude::*;
use crate::digits::{
    all_digits, dec_digits, is_digit_char, lemma_rank_digits_injective, lemma_rank_digits_shape,
    rank_digits, rank_string, usize_to_string,
};
use crate::models::Task;
use convert_case::{Case, Casing};

verus! {

/// The slug of a task's short name: the filesystem- and shell-safe,
/// case-normalized form that the snake-case conversion returns for it.
pub uninterp spec fn slug_of(s: Seq<char>) -> Seq<char>;

/// Relies on convert_case's `Casing::to_case` with `Case::Snake`: the result
/// depends on the characters of the input alone (the input is split on the
/// default word boundaries, each word is lowercased, and the words are
/// joined with underscores).
#[verifier::external_body]
fn to_slug(s: &str) -> (r: String)
    ensures
        r@ == slug_of(s@),
{
    s.to_case(Case::Snake)
}

/// `base` and `child` joined with a slash.
pub open spec fn join_path(base: Seq<char>, child: Seq<char>) -> Seq<char> {
    base + seq!['/'] + child
}

/// The directory name for one task: the zero-padded rank digits, an
/// underscore, and the slug of the short name.
pub open spec fn dir_name_of(rank: nat, shortname: Seq<char>) -> Seq<char> {
    rank_digits(rank) + seq!['_'] + slug_of(shortname)
}

/// The workspace directory of a task under a root directory.
pub open spec fn task_dir_of(root: Seq<char>, task: Task) -> Seq<char> {
    join_path(root, dir_name_of(task.order_by as nat, task.task_description.shortname@))
}

/// The file name of a task's editable exercise file: task id, dot, language.
pub open spec fn exercise_file_name_of(task: Task) -> Seq<char> {
    dec_digits(task.taskid as nat) + seq!['.'] + task.lang@
}

/// The full path of a task's editable exercise file.
pub open spec fn task_file_of(root: Seq<char>, task: Task) -> Seq<char> {
    join_path(task_dir_of(root, task), exercise_file_name_of(task))
}

/// Joins two path segments with a slash.
pub fn join_path_str(base: &str, child: &str) -> (r: String)
    ensures
        r@ == join_path(base@, child@),
{
    let mut s = String::from_str(base);
    s.append("/");
    s.append(child);
    proof {
        reveal_strlit("/");
        assert("/"@ =~= seq!['/']);
        assert(s@ =~= join_path(base@, child@));
    }
    s
}

/// Generates the paths for one task under the directory `task_dir`.
///
/// Returns the task's workspace directory path and its exercise file path.
/// Both are functions of the task's rank, short name, id and language
/// alone, so mapping the same task under the same root twice yields the
/// same pair.
pub fn make_task_path(task: &Task, task_dir: &str) -> (r: (String, String))
    ensures
        r.0@ == task_dir_of(task_dir@, *task),
        r.1@ == task_file_of(task_dir@, *task),
{
    let mut name = rank_string(task.order_by);
    name.append("_");
    let slug = to_slug(task.task_description.shortname.as_str());
    name.append(slug.as_str());
    proof {
        reveal_strlit("_");
        assert("_"@ =~= seq!['_']);
        assert(name@ =~= dir_name_of(
            task.order_by as nat,
            task.task_description.shortname@,
        ));
    }
    let dir_path = join_path_str(task_dir, name.as_str());

    let mut file_name = usize_to_string(task.taskid);
    file_name.append(".");
    file_name.append(task.lang.as_str());
    proof {
        reveal_strlit(".");
        assert("."@ =~= seq!['.']);
        assert(file_name@ =~= exercise_file_name_of(*task));
    }
    let task_path = join_path_str(dir_path.as_str(), file_name.as_str());
    (dir_path, task_path)
}

/// Distinct ranks give distinct directory names, whatever the short names:
/// the digit prefix before the first underscore pins the rank down.
pub proof fn lemma_dir_name_injective(r1: nat, s1: Seq<char>, r2: nat, s2: Seq<char>)
    requires
        r1 != r2,
    ensures
        dir_name_of(r1, s1) != dir_name_of(r2, s2),
{
    let d1 = rank_digits(r1);
    let d2 = rank_digits(r2);
    lemma_rank_digits_shape(r1);
    lemma_rank_digits_shape(r2);
    if dir_name_of(r1, s1) == dir_name_of(r2, s2) {
        let n1 = dir_name_of(r1, s1);
        let n2 = dir_name_of(r2, s2);
        if d1.len() == d2.len() {
            assert(d1 =~= d2) by {
                assert(forall|i: int| 0 <= i < d1.len() ==> d1[i] == d2[i]) by {
                    assert(forall|i: int| 0 <= i < d1.len() ==> n1[i] == d1[i] && n2[i] == d2[i]);
                };
            };
            lemma_rank_digits_injective(r1, r2);
        } else if d1.len() < d2.len() {
            assert(n1[d1.len() as int] == '_');
            assert(n2[d1.len() as int] == d2[d1.len() as int]);
            assert(is_digit_char(d2[d1.len() as int]));
        } else {
            assert(n2[d2.len() as int] == '_');
            assert(n1[d2.len() as int] == d1[d2.len() as int]);
            assert(is_digit_char(d1[d2.len() as int]));
        }
    }
}

/// Two tasks with distinct ranks never map to the same directory under one
/// root: the workspace mapping is injective over any catalog whose ranks
/// are unique.
pub proof fn lemma_task_dir_injective(root: Seq<char>, t1: Task, t2: Task)
    requires
        t1.order_by != t2.order_by,
    ensures
        task_dir_of(root, t1) != task_dir_of(root, t2),
{
    let n1 = dir_name_of(t1.order_by as nat, t1.task_description.shortname@);
    let n2 = dir_name_of(t2.order_by as nat, t2.task_description.shortname@);
    lemma_dir_name_injective(
        t1.order_by as nat,
        t1.task_description.shortname@,
        t2.order_by as nat,
        t2.task_description.shortname@,
    );
    if task_dir_of(root, t1) == task_dir_of(root, t2) {
        assert(task_dir_of(root, t1) == root + seq!['/'] + n1);
        assert(task_dir_of(root, t2) == root + seq!['/'] + n2);
        assert((root + seq!['/'] + n1).len() == root.len() + 1 + n1.len());
        assert((root + seq!['/'] + n2).len() == root.len() + 1 + n2.len());
        assert(n1.len() == n2.len());
        assert(n1 =~= n2) by {
            assert(forall|i: int| 0 <= i < n1.len() ==> n1[i] == n2[i]) by {
                assert(forall|i: int|
                    0 <= i < n1.len() ==> task_dir_of(root, t1)[root.len() + 1 + i] == n1[i]
                        && task_dir_of(root, t2)[root.len() + 1 + i] == n2[i]);
            };
        };
    }
}

/// True when `path` lies at or strictly under the directory `dir`.
pub open spec fn path_is_under(path: Seq<char>, dir: Seq<char>) -> bool {
    path == dir || (path.len() > dir.len() && path.take(dir.len() as int) == dir && path[dir.len() as int]
        == '/')
}

/// Decides whether `path` lies at or under the directory `dir`.
pub fn str_is_under(path: &str, dir: &str) -> (r: bool)
    ensures
        r == path_is_under(path@, dir@),
{
    let plen = path.unicode_len();
    let dlen = dir.unicode_len();
    if plen < dlen {
        return false;
    }
    let mut i: usize = 0;
    while i < dlen
        invariant
            0 <= i <= dlen,
            plen == path@.len(),
            dlen == dir@.len(),
            plen >= dlen,
            forall|j: int| 0 <= j < i ==> path@[j] == dir@[j],
        decreases dlen - i,
    {
        let pc = path.get_char(i);
        let dc = dir.get_char(i);
        if pc != dc {
            proof {
                assert(path@[i as int] != dir@[i as int]);
                if path@ == dir@ {
                    assert(false);
                }
                if path@.take(dlen as int) == dir@ {
                    assert(path@.take(dlen as int)[i as int] == path@[i as int]);
                    assert(false);
                }
            }
            return false;
        }
        i = i + 1;
    }
    if plen == dlen {
        proof {
            assert(path@ =~= dir@);
        }
        true
    } else {
        let c = path.get_char(dlen);
        proof {
            assert(path@.take(dlen as int) =~= dir@);
        }
        c == '/'
    }
}

} // verus!
