//! Deployment specifications: manifests, virtual machines, containers, the
//! trees they may use, and up-trees given as parent lists.
use vstd::prelude::*;

use crate::config::CellConfig;
use crate::utility::S;

verus! {

/// A tree that an application may use, by name.
#[derive(Debug)]
pub struct AllowedTree {
    name: String,
}

impl AllowedTree {
    pub closed spec fn spec_name(&self) -> Seq<char> {
        self.name@
    }

    pub fn new(name: &str) -> (t: AllowedTree)
        ensures
            t.spec_name() == name@,
    {
        AllowedTree { name: S(name) }
    }

    pub fn get_name(&self) -> (s: &String)
        ensures
            s@ == self.spec_name(),
    {
        &self.name
    }
}

impl Clone for AllowedTree {
    fn clone(&self) -> (t: Self)
        ensures
            t.spec_name() == self.spec_name(),
    {
        AllowedTree { name: self.name.clone() }
    }
}

/// The names of the trees.
pub open spec fn tree_names(s: Seq<AllowedTree>) -> Seq<Seq<char>> {
    s.map_values(|t: AllowedTree| t.spec_name())
}

/// Copies of the trees, in order.
fn clone_trees(refs: &Vec<&AllowedTree>) -> (v: Vec<AllowedTree>)
    ensures
        v@.len() == refs@.len(),
        forall|i: int| 0 <= i < refs@.len() ==> (#[trigger] v@[i]).spec_name() == refs@[i].spec_name(),
{
    let mut v: Vec<AllowedTree> = Vec::new();
    let mut i: usize = 0;
    while i < refs.len()
        invariant
            i <= refs@.len(),
            v@.len() == i,
            forall|k: int| 0 <= k < i ==> (#[trigger] v@[k]).spec_name() == refs@[k].spec_name(),
        decreases refs@.len() - i,
    {
        v.push(refs[i].clone());
        i = i + 1;
    }
    v
}

pub(crate) fn clone_tree_vec(trees: &Vec<AllowedTree>) -> (v: Vec<AllowedTree>)
    ensures
        tree_names(v@) == tree_names(trees@),
{
    let mut v: Vec<AllowedTree> = Vec::new();
    let mut i: usize = 0;
    while i < trees.len()
        invariant
            i <= trees@.len(),
            v@.len() == i,
            forall|k: int| 0 <= k < i ==> (#[trigger] v@[k]).spec_name() == trees@[k].spec_name(),
        decreases trees@.len() - i,
    {
        v.push(trees[i].clone());
        i = i + 1;
    }
    assert(tree_names(v@) =~= tree_names(trees@));
    v
}

/// Whether a tree of that name is among the trees.
fn contains_tree(trees: &Vec<AllowedTree>, tree: &AllowedTree) -> (b: bool)
    ensures
        b == tree_names(trees@).contains(tree.spec_name()),
{
    let mut i: usize = 0;
    while i < trees.len()
        invariant
            i <= trees@.len(),
            forall|k: int| 0 <= k < i ==> (#[trigger] trees@[k]).spec_name() != tree.spec_name(),
        decreases trees@.len() - i,
    {
        if trees[i].name == tree.name {
            assert(tree_names(trees@)[i as int] == tree.spec_name());
            return true;
        }
        i = i + 1;
    }
    proof {
        if tree_names(trees@).contains(tree.spec_name()) {
            let k = choose|k: int| 0 <= k < tree_names(trees@).len() && tree_names(trees@)[k] == tree.spec_name();
            assert(trees@[k].spec_name() != tree.spec_name());
        }
    }
    false
}

#[derive(Debug)]
pub enum UptreeSpecError {
    Allowed { func_name: &'static str, vm_id: String, tree: AllowedTree },
    Containers { func_name: &'static str, n_containers: usize },
    Tree { func_name: &'static str, id: String, parent_list: Vec<usize>, reason: &'static str },
}

/// An up-tree: node `i` has parent `parent_list[i]`; the root is its own parent.
#[derive(Debug)]
pub struct UpTreeSpec {
    id: String,
    parent_list: Vec<usize>,
}

/// The number of nodes below `k` that are their own parent.
pub open spec fn root_count(pl: Seq<usize>, k: int) -> nat
    decreases k,
{
    if k <= 0 {
        0
    } else {
        root_count(pl, k - 1) + if pl[k - 1] == k - 1 {
            1nat
        } else {
            0nat
        }
    }
}

/// The last node below `k` that is its own parent; `0` if there is none.
pub open spec fn last_root(pl: Seq<usize>, k: int) -> usize
    decreases k,
{
    if k <= 0 {
        0
    } else if pl[k - 1] == k - 1 {
        (k - 1) as usize
    } else {
        last_root(pl, k - 1)
    }
}

/// Where following parents from `r` ends, with at most `fuel` steps:
/// `None` at the root, otherwise the reason it does not get there.
pub open spec fn walk_end(pl: Seq<usize>, root: usize, r: usize, fuel: nat) -> Option<&'static str>
    decreases fuel,
{
    if r == root {
        None
    } else if r >= pl.len() {
        Some("Index out of range")
    } else if fuel == 0 {
        Some("Cycle")
    } else {
        walk_end(pl, root, pl[r as int], (fuel - 1) as nat)
    }
}

/// The reason the first parent, from position `i` on, does not lead to the root.
pub open spec fn bad_walk_from(pl: Seq<usize>, root: usize, i: int) -> Option<&'static str>
    decreases pl.len() - i,
{
    if i < 0 || i >= pl.len() {
        None
    } else {
        match walk_end(pl, root, pl[i], pl.len()) {
            Some(reason) => Some(reason),
            None => bad_walk_from(pl, root, i + 1),
        }
    }
}

/// Why the parent list is rejected, if it is.
pub open spec fn uptree_error(pl: Seq<usize>) -> Option<&'static str> {
    if pl.len() <= 1 {
        None
    } else if root_count(pl, pl.len() as int) != 1 {
        Some("More than one root")
    } else {
        bad_walk_from(pl, last_root(pl, pl.len() as int), 0)
    }
}

/// A sequence without repeats of numbers below `n` has at most `n` elements.
proof fn lemma_distinct_below(s: Seq<usize>, n: nat)
    requires
        s.no_duplicates(),
        forall|i: int| 0 <= i < s.len() ==> s[i] < n,
    ensures
        s.len() <= n,
{
    let t = s.map_values(|x: usize| x as int);
    assert(t.no_duplicates()) by {
        assert forall|i: int, j: int| 0 <= i < t.len() && 0 <= j < t.len() && i != j implies t[i] != t[j] by {
            assert(s[i] != s[j]);
        }
    }
    t.unique_seq_to_set();
    vstd::set_lib::lemma_int_range(0, n as int);
    assert(t.to_set().subset_of(vstd::set_lib::set_int_range(0, n as int))) by {
        assert forall|x: int| t.to_set().contains(x) implies vstd::set_lib::set_int_range(0, n as int).contains(x) by {
            let i = choose|i: int| 0 <= i < t.len() && t[i] == x;
            assert(s[i] < n);
        }
    }
    vstd::set_lib::lemma_len_subset(t.to_set(), vstd::set_lib::set_int_range(0, n as int));
}

/// Along a closed path that avoids the root and stays in range, following
/// parents never ends.
proof fn lemma_path_loops(pl: Seq<usize>, root: usize, path: Seq<usize>, m: int, j: int, fuel: nat)
    requires
        0 <= m <= j < path.len(),
        forall|k: int| 0 <= k < path.len() ==> path[k] != root && path[k] < pl.len(),
        forall|k: int| 0 <= k < path.len() - 1 ==> pl[path[k] as int] == path[k + 1],
        pl[path[path.len() - 1] as int] == path[m],
    ensures
        walk_end(pl, root, path[j], fuel) == Some("Cycle"),
    decreases fuel,
{
    if fuel > 0 {
        if j < path.len() - 1 {
            lemma_path_loops(pl, root, path, m, j + 1, (fuel - 1) as nat);
        } else {
            lemma_path_loops(pl, root, path, m, m, (fuel - 1) as nat);
        }
    }
}

impl UpTreeSpec {
    pub closed spec fn spec_id(&self) -> Seq<char> {
        self.id@
    }

    pub closed spec fn spec_parent_list(&self) -> Seq<usize> {
        self.parent_list@
    }

    /// Accepts a parent list of at most one node, or one with exactly one
    /// root from which every node's parent is reached by following parents.
    pub fn new(id: &str, parent_list: Vec<usize>) -> (r: Result<UpTreeSpec, UptreeSpecError>)
        ensures
            match uptree_error(parent_list@) {
                None => r matches Ok(t) && t.spec_id() == id@ && t.spec_parent_list() == parent_list@,
                Some(why) => r matches Err(UptreeSpecError::Tree { func_name, id: i, parent_list: pl, reason })
                    && func_name == "UptreeSpec::new" && i@ == id@ && pl@ == parent_list@ && reason == why,
            },
    {
        let len = parent_list.len();
        if len > 1 {
            let mut count: usize = 0;
            let mut root: usize = 0;
            let mut i: usize = 0;
            while i < len
                invariant
                    len == parent_list@.len(),
                    i <= len,
                    count == root_count(parent_list@, i as int),
                    count <= i,
                    root == last_root(parent_list@, i as int),
                decreases len - i,
            {
                if i == parent_list[i] {
                    root = i;
                    count = count + 1;
                }
                i = i + 1;
            }
            if count != 1 {
                return Err(
                    UptreeSpecError::Tree { func_name: "UptreeSpec::new", id: S(id), parent_list, reason: "More than one root" },
                );
            }
            let ghost pl = parent_list@;
            let mut q: usize = 0;
            while q < len
                invariant
                    pl == parent_list@,
                    len == pl.len(),
                    len > 1,
                    root == last_root(pl, len as int),
                    root_count(pl, len as int) == 1,
                    q <= len,
                    bad_walk_from(pl, root, 0) == bad_walk_from(pl, root, q as int),
                decreases len - q,
            {
                let p = parent_list[q];
                let mut r = p;
                let mut visited: Vec<usize> = Vec::new();
                while r != root
                    invariant
                        pl == parent_list@,
                        len == pl.len(),
                        len > 1,
                        root == last_root(pl, len as int),
                        root_count(pl, len as int) == 1,
                        bad_walk_from(pl, root, 0) == bad_walk_from(pl, root, q as int),
                        q < len,
                        p == pl[q as int],
                        visited@.no_duplicates(),
                        visited@.len() <= len,
                        forall|k: int| 0 <= k < visited@.len() ==> visited@[k] != root && visited@[k] < len,
                        visited@.len() == 0 ==> r == p,
                        visited@.len() > 0 ==> visited@[0] == p,
                        forall|k: int| 0 <= k < visited@.len() - 1 ==> pl[visited@[k] as int] == visited@[k + 1],
                        visited@.len() > 0 ==> pl[visited@[visited@.len() - 1] as int] == r,
                        walk_end(pl, root, p, len as nat) == walk_end(
                            pl,
                            root,
                            r,
                            (len - visited@.len()) as nat,
                        ),
                    decreases len - visited@.len(),
                {
                    match index_of(&visited, r) {
                        Some(m) => {
                            proof {
                                lemma_path_loops(pl, root, visited@, m as int, m as int, (len - visited@.len()) as nat);
                            }
                            return Err(
                                UptreeSpecError::Tree { func_name: "UptreeSpec::new", id: S(id), parent_list, reason: "Cycle" },
                            );
                        },
                        None => {},
                    }
                    if r >= len {
                        return Err(
                            UptreeSpecError::Tree {
                                func_name: "UptreeSpec::new",
                                id: S(id),
                                parent_list,
                                reason: "Index out of range",
                            },
                        );
                    }
                    let ghost before = visited@;
                    visited.push(r);
                    proof {
                        assert(visited@.no_duplicates()) by {
                            assert forall|a: int, b: int|
                                0 <= a < visited@.len() && 0 <= b < visited@.len() && a != b implies visited@[a]
                                != visited@[b] by {
                                if a < before.len() && b < before.len() {
                                    assert(visited@[a] == before[a] && visited@[b] == before[b]);
                                }
                            }
                        }
                        lemma_distinct_below(visited@, len as nat);
                    }
                    r = parent_list[r];
                }
                q = q + 1;
            }
        }
        Ok(UpTreeSpec { id: S(id), parent_list })
    }

    fn get_tree_size(&self) -> (n: usize)
        ensures
            n == self.spec_parent_list().len(),
    {
        self.parent_list.len()
    }
}

impl Clone for UpTreeSpec {
    fn clone(&self) -> (t: Self)
        ensures
            t.spec_id() == self.spec_id(),
            t.spec_parent_list() == self.spec_parent_list(),
    {
        UpTreeSpec { id: self.id.clone(), parent_list: clone_usizes(&self.parent_list) }
    }
}

fn clone_usizes(v: &Vec<usize>) -> (c: Vec<usize>)
    ensures
        c@ == v@,
{
    let mut c: Vec<usize> = Vec::new();
    let mut i: usize = 0;
    while i < v.len()
        invariant
            i <= v@.len(),
            c@ == v@.take(i as int),
        decreases v@.len() - i,
    {
        c.push(v[i]);
        i = i + 1;
        assert(c@ =~= v@.take(i as int));
    }
    assert(v@.take(v@.len() as int) =~= v@);
    c
}

/// Every node's parent leads to the root of an accepted parent list.
pub proof fn lemma_accepted_is_tree(pl: Seq<usize>)
    requires
        uptree_error(pl) is None,
        pl.len() > 1,
    ensures
        root_count(pl, pl.len() as int) == 1,
        forall|i: int| 0 <= i < pl.len() ==> walk_end(pl, last_root(pl, pl.len() as int), #[trigger] pl[i], pl.len()) is None,
{
    let root = last_root(pl, pl.len() as int);
    assert forall|i: int| 0 <= i < pl.len() implies walk_end(pl, root, #[trigger] pl[i], pl.len()) is None by {
        lemma_no_bad_walk(pl, root, 0, i);
    }
}

proof fn lemma_no_bad_walk(pl: Seq<usize>, root: usize, q: int, i: int)
    requires
        0 <= q <= i < pl.len(),
        bad_walk_from(pl, root, q) is None,
    ensures
        walk_end(pl, root, pl[i], pl.len()) is None,
    decreases i - q,
{
    if q < i {
        lemma_no_bad_walk(pl, root, q + 1, i);
    }
}

/// A container: its image, its parameters and the trees it may use.
#[derive(Debug)]
pub struct ContainerSpec {
    id: String,
    image: String,
    params: Vec<String>,
    allowed_trees: Vec<AllowedTree>,
}

impl ContainerSpec {
    pub closed spec fn spec_id(&self) -> Seq<char> {
        self.id@
    }

    pub closed spec fn spec_image(&self) -> Seq<char> {
        self.image@
    }

    pub closed spec fn spec_params(&self) -> Seq<Seq<char>> {
        self.params@.map_values(|p: String| p@)
    }

    pub closed spec fn spec_allowed_trees(&self) -> Seq<Seq<char>> {
        tree_names(self.allowed_trees@)
    }

    pub fn new(id: &str, image: &str, param_refs: Vec<&str>, allowed_refs: &Vec<&AllowedTree>) -> (r: Result<
        ContainerSpec,
        UptreeSpecError,
    >)
        ensures
            r matches Ok(c) && c.spec_id() == id@ && c.spec_image() == image@ && c.spec_params()
                == param_refs@.map_values(|p: &str| p@) && c.spec_allowed_trees() == allowed_refs@.map_values(
                |t: &AllowedTree| t.spec_name(),
            ),
    {
        let mut params: Vec<String> = Vec::new();
        let mut i: usize = 0;
        while i < param_refs.len()
            invariant
                i <= param_refs@.len(),
                params@.len() == i,
                forall|k: int| 0 <= k < i ==> (#[trigger] params@[k])@ == param_refs@[k]@,
            decreases param_refs@.len() - i,
        {
            params.push(S(param_refs[i]));
            i = i + 1;
        }
        let allowed_trees = clone_trees(allowed_refs);
        let c = ContainerSpec { id: S(id), image: S(image), params, allowed_trees };
        assert(c.spec_params() =~= param_refs@.map_values(|p: &str| p@));
        assert(c.spec_allowed_trees() =~= allowed_refs@.map_values(|t: &AllowedTree| t.spec_name()));
        Ok(c)
    }

    pub fn get_id(&self) -> (s: String)
        ensures
            s@ == self.spec_id(),
    {
        self.id.clone()
    }

    pub fn get_image(&self) -> (s: String)
        ensures
            s@ == self.spec_image(),
    {
        self.image.clone()
    }

    pub fn get_allowed_trees(&self) -> (v: &Vec<AllowedTree>)
        ensures
            tree_names(v@) == self.spec_allowed_trees(),
    {
        &self.allowed_trees
    }
}

impl Clone for ContainerSpec {
    fn clone(&self) -> (c: Self)
        ensures
            c.spec_id() == self.spec_id(),
            c.spec_image() == self.spec_image(),
            c.spec_params() == self.spec_params(),
            c.spec_allowed_trees() == self.spec_allowed_trees(),
    {
        let mut params: Vec<String> = Vec::new();
        let mut i: usize = 0;
        while i < self.params.len()
            invariant
                i <= self.params@.len(),
                params@.len() == i,
                forall|k: int| 0 <= k < i ==> (#[trigger] params@[k])@ == self.params@[k]@,
            decreases self.params@.len() - i,
        {
            params.push(self.params[i].clone());
            i = i + 1;
        }
        let c = ContainerSpec {
            id: self.id.clone(),
            image: self.image.clone(),
            params,
            allowed_trees: clone_tree_vec(&self.allowed_trees),
        };
        assert(c.spec_params() =~= self.spec_params());
        c
    }
}

/// The first tree, from position `j` on, missing from the allowed names.
pub open spec fn first_unlisted_from(trees: Seq<Seq<char>>, allowed: Seq<Seq<char>>, j: int) -> Option<Seq<char>>
    decreases trees.len() - j,
{
    if j < 0 || j >= trees.len() {
        None
    } else if !allowed.contains(trees[j]) {
        Some(trees[j])
    } else {
        first_unlisted_from(trees, allowed, j + 1)
    }
}

/// The first tree of the list that is not allowed.
fn find_unlisted(trees: &Vec<AllowedTree>, allowed: &Vec<AllowedTree>) -> (r: Option<usize>)
    ensures
        r matches Some(j) ==> j < trees@.len() && first_unlisted_from(tree_names(trees@), tree_names(allowed@), 0)
            == Some(trees@[j as int].spec_name()),
        r is None ==> first_unlisted_from(tree_names(trees@), tree_names(allowed@), 0) is None,
{
    let ghost names = tree_names(trees@);
    let mut j: usize = 0;
    while j < trees.len()
        invariant
            names == tree_names(trees@),
            j <= trees@.len(),
            first_unlisted_from(names, tree_names(allowed@), 0) == first_unlisted_from(
                names,
                tree_names(allowed@),
                j as int,
            ),
        decreases trees@.len() - j,
    {
        if !contains_tree(allowed, &trees[j]) {
            return Some(j);
        }
        j = j + 1;
    }
    None
}

/// A virtual machine: its image, the cell configuration it needs, the trees
/// it may use, its containers and its up-trees.
#[derive(Debug)]
pub struct VmSpec {
    id: String,
    image: String,
    required_config: CellConfig,
    allowed_trees: Vec<AllowedTree>,
    containers: Vec<ContainerSpec>,
    trees: Vec<UpTreeSpec>,
}

/// The largest tree size among the up-trees; `0` if there are none.
pub open spec fn max_tree_size(trees: Seq<&UpTreeSpec>) -> nat
    decreases trees.len(),
{
    if trees.len() == 0 {
        0
    } else {
        let m = max_tree_size(trees.drop_last());
        let t = trees.last().spec_parent_list().len();
        if t > m {
            t
        } else {
            m
        }
    }
}

/// The error for the first container, from position `i` on, that uses a
/// tree the machine does not allow.
pub open spec fn container_error_from(cs: Seq<&ContainerSpec>, allowed: Seq<Seq<char>>, i: int) -> Option<
    (Seq<char>, Seq<char>),
>
    decreases cs.len() - i,
{
    if i < 0 || i >= cs.len() {
        None
    } else {
        match first_unlisted_from(cs[i].spec_allowed_trees(), allowed, 0) {
            Some(t) => Some((cs[i].spec_id(), t)),
            None => container_error_from(cs, allowed, i + 1),
        }
    }
}

impl VmSpec {
    pub closed spec fn spec_id(&self) -> Seq<char> {
        self.id@
    }

    pub closed spec fn spec_image(&self) -> Seq<char> {
        self.image@
    }

    pub closed spec fn spec_config(&self) -> CellConfig {
        self.required_config
    }

    pub closed spec fn spec_allowed_trees(&self) -> Seq<Seq<char>> {
        tree_names(self.allowed_trees@)
    }

    pub closed spec fn spec_containers(&self) -> Seq<ContainerSpec> {
        self.containers@
    }

    pub closed spec fn spec_trees(&self) -> Seq<UpTreeSpec> {
        self.trees@
    }

    /// Rejects a machine with fewer containers than its largest up-tree
    /// has nodes, then one whose container uses a tree the machine does not
    /// allow (naming the first such container and tree).
    pub fn new(id: &str, image: &str, config: CellConfig, allowed_refs: &Vec<&AllowedTree>, container_refs: Vec<
        &ContainerSpec,
    >, tree_refs: Vec<&UpTreeSpec>) -> (r: Result<VmSpec, UptreeSpecError>)
        ensures
            max_tree_size(tree_refs@) > container_refs@.len() ==> (r matches Err(
                UptreeSpecError::Containers { func_name, n_containers },
            ) && func_name == "VmSpec::new" && n_containers == container_refs@.len()),
            max_tree_size(tree_refs@) <= container_refs@.len() ==> match container_error_from(
                container_refs@,
                allowed_refs@.map_values(|t: &AllowedTree| t.spec_name()),
                0,
            ) {
                Some((cid, t)) => r matches Err(UptreeSpecError::Allowed { func_name, vm_id, tree }) && func_name
                    == "VmSpec::new" && vm_id@ == cid && tree.spec_name() == t,
                None => r matches Ok(v) && {
                    &&& v.spec_id() == id@
                    &&& v.spec_image() == image@
                    &&& v.spec_config() == config
                    &&& v.spec_allowed_trees() == allowed_refs@.map_values(|t: &AllowedTree| t.spec_name())
                    &&& v.spec_containers().len() == container_refs@.len()
                    &&& forall|i: int|
                        0 <= i < container_refs@.len() ==> same_container(
                            #[trigger] v.spec_containers()[i],
                            *container_refs@[i],
                        )
                    &&& v.spec_trees().len() == tree_refs@.len()
                    &&& forall|i: int|
                        0 <= i < tree_refs@.len() ==> (#[trigger] v.spec_trees()[i]).spec_id() == tree_refs@[i].spec_id()
                            && v.spec_trees()[i].spec_parent_list() == tree_refs@[i].spec_parent_list()
                },
            },
    {
        let allowed_trees = clone_trees(allowed_refs);
        let ghost allowed = allowed_refs@.map_values(|t: &AllowedTree| t.spec_name());
        assert(tree_names(allowed_trees@) =~= allowed);
        let mut max_size: usize = 0;
        let mut trees: Vec<UpTreeSpec> = Vec::new();
        let mut i: usize = 0;
        while i < tree_refs.len()
            invariant
                i <= tree_refs@.len(),
                max_size == max_tree_size(tree_refs@.take(i as int)),
                trees@.len() == i,
                forall|k: int|
                    0 <= k < i ==> (#[trigger] trees@[k]).spec_id() == tree_refs@[k].spec_id()
                        && trees@[k].spec_parent_list() == tree_refs@[k].spec_parent_list(),
            decreases tree_refs@.len() - i,
        {
            let t = tree_refs[i];
            trees.push(t.clone());
            let size = t.get_tree_size();
            proof {
                assert(tree_refs@.take(i + 1).drop_last() =~= tree_refs@.take(i as int));
            }
            if size > max_size {
                max_size = size;
            }
            i = i + 1;
        }
        assert(tree_refs@.take(tree_refs@.len() as int) =~= tree_refs@);
        if max_size > container_refs.len() {
            return Err(UptreeSpecError::Containers { func_name: "VmSpec::new", n_containers: container_refs.len() });
        }
        let mut containers: Vec<ContainerSpec> = Vec::new();
        let mut i: usize = 0;
        while i < container_refs.len()
            invariant
                i <= container_refs@.len(),
                max_size == max_tree_size(tree_refs@),
                max_size <= container_refs@.len(),
                allowed == allowed_refs@.map_values(|t: &AllowedTree| t.spec_name()),
                tree_names(allowed_trees@) == allowed,
                container_error_from(container_refs@, allowed, 0) == container_error_from(
                    container_refs@,
                    allowed,
                    i as int,
                ),
                containers@.len() == i,
                forall|k: int| 0 <= k < i ==> same_container(#[trigger] containers@[k], *container_refs@[k]),
            decreases container_refs@.len() - i,
        {
            let c = container_refs[i];
            containers.push(c.clone());
            match find_unlisted(&c.allowed_trees, &allowed_trees) {
                Some(j) => {
                    return Err(
                        UptreeSpecError::Allowed {
                            func_name: "VmSpec::new",
                            vm_id: c.get_id(),
                            tree: c.allowed_trees[j].clone(),
                        },
                    );
                },
                None => {},
            }
            i = i + 1;
        }
        Ok(VmSpec { id: S(id), image: S(image), required_config: config, allowed_trees, containers, trees })
    }

    pub fn get_id(&self) -> (s: &String)
        ensures
            s@ == self.spec_id(),
    {
        &self.id
    }

    pub fn get_allowed_trees(&self) -> (v: &Vec<AllowedTree>)
        ensures
            tree_names(v@) == self.spec_allowed_trees(),
    {
        &self.allowed_trees
    }

    pub fn get_containers(&self) -> (v: &Vec<ContainerSpec>)
        ensures
            v@ == self.spec_containers(),
    {
        &self.containers
    }
}

/// Two containers that agree in everything observable.
pub open spec fn same_container(a: ContainerSpec, b: ContainerSpec) -> bool {
    &&& a.spec_id() == b.spec_id()
    &&& a.spec_image() == b.spec_image()
    &&& a.spec_params() == b.spec_params()
    &&& a.spec_allowed_trees() == b.spec_allowed_trees()
}

/// What an application deploys: its machines, the tree it is deployed on
/// and the trees it may use.
#[derive(Debug)]
pub struct Manifest {
    id: String,
    deployment_tree: AllowedTree,
    cell_config: CellConfig,
    allowed_trees: Vec<AllowedTree>,
    vms: Vec<VmSpec>,
    trees: Vec<UpTreeSpec>,
}

/// The error for the first machine, from position `i` on, that uses a tree
/// the manifest does not allow.
pub open spec fn vm_error_from(vms: Seq<&VmSpec>, allowed: Seq<Seq<char>>, i: int) -> Option<(Seq<char>, Seq<char>)>
    decreases vms.len() - i,
{
    if i < 0 || i >= vms.len() {
        None
    } else {
        match first_unlisted_from(vms[i].spec_allowed_trees(), allowed, 0) {
            Some(t) => Some((vms[i].spec_id(), t)),
            None => vm_error_from(vms, allowed, i + 1),
        }
    }
}

/// Two up-trees with the same id and parent list.
pub open spec fn same_uptree(a: UpTreeSpec, b: UpTreeSpec) -> bool {
    a.spec_id() == b.spec_id() && a.spec_parent_list() == b.spec_parent_list()
}

/// Two machines that agree in everything observable.
pub open spec fn same_vm(a: VmSpec, b: VmSpec) -> bool {
    &&& a.spec_id() == b.spec_id()
    &&& a.spec_image() == b.spec_image()
    &&& a.spec_config() == b.spec_config()
    &&& a.spec_allowed_trees() == b.spec_allowed_trees()
    &&& a.spec_containers().len() == b.spec_containers().len()
    &&& forall|i: int|
        0 <= i < a.spec_containers().len() ==> same_container(#[trigger] a.spec_containers()[i], b.spec_containers()[i])
    &&& a.spec_trees().len() == b.spec_trees().len()
    &&& forall|i: int| 0 <= i < a.spec_trees().len() ==> same_uptree(#[trigger] a.spec_trees()[i], b.spec_trees()[i])
}

/// Two manifests that agree in everything observable.
pub open spec fn same_manifest(a: Manifest, b: Manifest) -> bool {
    &&& a.spec_id() == b.spec_id()
    &&& a.spec_deployment_tree() == b.spec_deployment_tree()
    &&& a.spec_cell_config() == b.spec_cell_config()
    &&& a.spec_allowed_trees() == b.spec_allowed_trees()
    &&& a.spec_vms().len() == b.spec_vms().len()
    &&& forall|i: int| 0 <= i < a.spec_vms().len() ==> same_vm(#[trigger] a.spec_vms()[i], b.spec_vms()[i])
    &&& a.spec_trees().len() == b.spec_trees().len()
    &&& forall|i: int| 0 <= i < a.spec_trees().len() ==> same_uptree(#[trigger] a.spec_trees()[i], b.spec_trees()[i])
}

impl Clone for VmSpec {
    fn clone(&self) -> (v: Self)
        ensures
            same_vm(v, *self),
    {
        let mut containers: Vec<ContainerSpec> = Vec::new();
        let mut i: usize = 0;
        while i < self.containers.len()
            invariant
                i <= self.containers@.len(),
                containers@.len() == i,
                forall|k: int| 0 <= k < i ==> same_container(#[trigger] containers@[k], self.containers@[k]),
            decreases self.containers@.len() - i,
        {
            containers.push(self.containers[i].clone());
            i = i + 1;
        }
        let mut trees: Vec<UpTreeSpec> = Vec::new();
        let mut i: usize = 0;
        while i < self.trees.len()
            invariant
                i <= self.trees@.len(),
                trees@.len() == i,
                forall|k: int|
                    0 <= k < i ==> (#[trigger] trees@[k]).spec_id() == self.trees@[k].spec_id()
                        && trees@[k].spec_parent_list() == self.trees@[k].spec_parent_list(),
            decreases self.trees@.len() - i,
        {
            trees.push(self.trees[i].clone());
            i = i + 1;
        }
        VmSpec {
            id: self.id.clone(),
            image: self.image.clone(),
            required_config: self.required_config,
            allowed_trees: clone_tree_vec(&self.allowed_trees),
            containers,
            trees,
        }
    }
}

impl Manifest {
    pub closed spec fn spec_id(&self) -> Seq<char> {
        self.id@
    }

    pub closed spec fn spec_deployment_tree(&self) -> Seq<char> {
        self.deployment_tree.spec_name()
    }

    pub closed spec fn spec_cell_config(&self) -> CellConfig {
        self.cell_config
    }

    pub closed spec fn spec_allowed_trees(&self) -> Seq<Seq<char>> {
        tree_names(self.allowed_trees@)
    }

    pub closed spec fn spec_vms(&self) -> Seq<VmSpec> {
        self.vms@
    }

    pub closed spec fn spec_trees(&self) -> Seq<UpTreeSpec> {
        self.trees@
    }

    /// Rejects a manifest with a machine that uses a tree the manifest does
    /// not allow, naming the first such machine and tree.
    pub fn new(id: &str, cell_config: CellConfig, deployment_tree: &AllowedTree, allowed_refs: &Vec<&AllowedTree>,
        vm_refs: Vec<&VmSpec>, tree_refs: Vec<&UpTreeSpec>) -> (r: Result<Manifest, UptreeSpecError>)
        ensures
            match vm_error_from(vm_refs@, allowed_refs@.map_values(|t: &AllowedTree| t.spec_name()), 0) {
                Some((vid, t)) => r matches Err(UptreeSpecError::Allowed { func_name, vm_id, tree }) && func_name
                    == "new" && vm_id@ == vid && tree.spec_name() == t,
                None => r matches Ok(m) && {
                    &&& m.spec_id() == id@
                    &&& m.spec_cell_config() == cell_config
                    &&& m.spec_deployment_tree() == deployment_tree.spec_name()
                    &&& m.spec_allowed_trees() == allowed_refs@.map_values(|t: &AllowedTree| t.spec_name())
                    &&& m.spec_vms().len() == vm_refs@.len()
                    &&& forall|i: int| 0 <= i < vm_refs@.len() ==> same_vm(#[trigger] m.spec_vms()[i], *vm_refs@[i])
                    &&& m.spec_trees().len() == tree_refs@.len()
                    &&& forall|i: int|
                        0 <= i < tree_refs@.len() ==> same_uptree(#[trigger] m.spec_trees()[i], *tree_refs@[i])
                },
            },
    {
        let mut trees: Vec<UpTreeSpec> = Vec::new();
        let mut i: usize = 0;
        while i < tree_refs.len()
            invariant
                i <= tree_refs@.len(),
                trees@.len() == i,
                forall|k: int|
                    0 <= k < i ==> (#[trigger] trees@[k]).spec_id() == tree_refs@[k].spec_id()
                        && trees@[k].spec_parent_list() == tree_refs@[k].spec_parent_list(),
            decreases tree_refs@.len() - i,
        {
            trees.push(tree_refs[i].clone());
            i = i + 1;
        }
        let allowed_trees = clone_trees(allowed_refs);
        let ghost allowed = allowed_refs@.map_values(|t: &AllowedTree| t.spec_name());
        assert(tree_names(allowed_trees@) =~= allowed);
        let mut vms: Vec<VmSpec> = Vec::new();
        let mut i: usize = 0;
        while i < vm_refs.len()
            invariant
                i <= vm_refs@.len(),
                allowed == allowed_refs@.map_values(|t: &AllowedTree| t.spec_name()),
                tree_names(allowed_trees@) == allowed,
                vm_error_from(vm_refs@, allowed, 0) == vm_error_from(vm_refs@, allowed, i as int),
                vms@.len() == i,
                forall|k: int| 0 <= k < i ==> same_vm(#[trigger] vms@[k], *vm_refs@[k]),
            decreases vm_refs@.len() - i,
        {
            let v = vm_refs[i];
            vms.push(v.clone());
            match find_unlisted(&v.allowed_trees, &allowed_trees) {
                Some(j) => {
                    return Err(
                        UptreeSpecError::Allowed { func_name: "new", vm_id: v.id.clone(), tree: v.allowed_trees[j].clone() },
                    );
                },
                None => {},
            }
            i = i + 1;
        }
        Ok(
            Manifest {
                id: S(id),
                deployment_tree: deployment_tree.clone(),
                cell_config,
                allowed_trees,
                vms,
                trees,
            },
        )
    }

    pub fn get_id(&self) -> (s: &String)
        ensures
            s@ == self.spec_id(),
    {
        &self.id
    }

    pub fn get_trees(&self) -> (v: &Vec<UpTreeSpec>)
        ensures
            v@ == self.spec_trees(),
    {
        &self.trees
    }

    pub fn get_deployment_tree(&self) -> (t: &AllowedTree)
        ensures
            t.spec_name() == self.spec_deployment_tree(),
    {
        &self.deployment_tree
    }

    pub fn get_allowed_trees(&self) -> (v: &Vec<AllowedTree>)
        ensures
            tree_names(v@) == self.spec_allowed_trees(),
    {
        &self.allowed_trees
    }

    pub fn get_vms(&self) -> (v: &Vec<VmSpec>)
        ensures
            v@ == self.spec_vms(),
    {
        &self.vms
    }
}

impl Clone for Manifest {
    fn clone(&self) -> (m: Self)
        ensures
            same_manifest(m, *self),
    {
        let mut vms: Vec<VmSpec> = Vec::new();
        let mut i: usize = 0;
        while i < self.vms.len()
            invariant
                i <= self.vms@.len(),
                vms@.len() == i,
                forall|k: int| 0 <= k < i ==> same_vm(#[trigger] vms@[k], self.vms@[k]),
            decreases self.vms@.len() - i,
        {
            vms.push(self.vms[i].clone());
            i = i + 1;
        }
        let mut trees: Vec<UpTreeSpec> = Vec::new();
        let mut i: usize = 0;
        while i < self.trees.len()
            invariant
                i <= self.trees@.len(),
                trees@.len() == i,
                forall|k: int| 0 <= k < i ==> same_uptree(#[trigger] trees@[k], self.trees@[k]),
            decreases self.trees@.len() - i,
        {
            trees.push(self.trees[i].clone());
            i = i + 1;
        }
        Manifest {
            id: self.id.clone(),
            deployment_tree: self.deployment_tree.clone(),
            cell_config: self.cell_config,
            allowed_trees: clone_tree_vec(&self.allowed_trees),
            vms,
            trees,
        }
    }
}

/// The position of `x` in `v`, if it is there.
fn index_of(v: &Vec<usize>, x: usize) -> (r: Option<usize>)
    ensures
        r matches Some(m) ==> m < v@.len() && v@[m as int] == x,
        r is None ==> !v@.contains(x),
{
    let mut i: usize = 0;
    while i < v.len()
        invariant
            i <= v@.len(),
            forall|k: int| 0 <= k < i ==> v@[k] != x,
        decreases v@.len() - i,
    {
        if v[i] == x {
            return Some(i);
        }
        i = i + 1;
    }
    None
}

/// Whether following parents from `r` reaches `root` in at most `k` steps,
/// every step within the list.
pub open spec fn reaches(pl: Seq<usize>, root: usize, r: usize, k: nat) -> bool
    decreases k,
{
    r == root || (r < pl.len() && k > 0 && reaches(pl, root, pl[r as int], (k - 1) as nat))
}

/// Whether `root` is the one node of the list that is its own parent.
pub open spec fn sole_root(pl: Seq<usize>, root: usize) -> bool {
    &&& root < pl.len()
    &&& pl[root as int] == root
    &&& forall|j: int| 0 <= j < pl.len() && #[trigger] pl[j] == j ==> j == root
}

proof fn lemma_walk_reaches(pl: Seq<usize>, root: usize, r: usize, fuel: nat)
    ensures
        (walk_end(pl, root, r, fuel) is None) <==> reaches(pl, root, r, fuel),
    decreases fuel,
{
    if r != root && r < pl.len() && fuel > 0 {
        lemma_walk_reaches(pl, root, pl[r as int], (fuel - 1) as nat);
    }
}

proof fn lemma_bad_walk_none(pl: Seq<usize>, root: usize, i: int)
    requires
        0 <= i <= pl.len(),
    ensures
        (bad_walk_from(pl, root, i) is None) <==> forall|j: int|
            i <= j < pl.len() ==> walk_end(pl, root, #[trigger] pl[j], pl.len()) is None,
    decreases pl.len() - i,
{
    if i < pl.len() {
        lemma_bad_walk_none(pl, root, i + 1);
    }
}

proof fn lemma_root_count(pl: Seq<usize>, k: int)
    requires
        0 <= k <= pl.len(),
    ensures
        root_count(pl, k) == 0 <==> forall|j: int| 0 <= j < k ==> #[trigger] pl[j] != j,
        root_count(pl, k) >= 1 ==> {
            let r = last_root(pl, k);
            &&& r < k
            &&& pl[r as int] == r
            &&& forall|j: int| r < j < k ==> #[trigger] pl[j] != j
        },
        root_count(pl, k) == 1 ==> forall|j: int| 0 <= j < k && #[trigger] pl[j] == j ==> j == last_root(pl, k),
        (exists|r: int| 0 <= r < k && pl[r] == r && forall|j: int| 0 <= j < k && #[trigger] pl[j] == j ==> j == r)
            ==> root_count(pl, k) == 1,
    decreases k,
{
    if k > 0 {
        lemma_root_count(pl, k - 1);
        if exists|r: int| 0 <= r < k && pl[r] == r && forall|j: int| 0 <= j < k && #[trigger] pl[j] == j ==> j == r {
            let r = choose|r: int| 0 <= r < k && pl[r] == r && forall|j: int| 0 <= j < k && #[trigger] pl[j] == j ==> j == r;
            if r < k - 1 {
                assert(pl[k - 1] != k - 1);
                assert(exists|r2: int| 0 <= r2 < k - 1 && pl[r2] == r2 && forall|j: int| 0 <= j < k - 1 && #[trigger] pl[j] == j ==> j == r2);
            } else {
                assert forall|j: int| 0 <= j < k - 1 implies #[trigger] pl[j] != j by {
                    if pl[j] == j {
                        assert(j == r);
                    }
                }
            }
        }
        if root_count(pl, k) == 1 && pl[k - 1] != k - 1 {
            assert(root_count(pl, k - 1) == 1);
        }
        if root_count(pl, k) == 1 && pl[k - 1] == k - 1 {
            assert(root_count(pl, k - 1) == 0);
        }
    }
}

/// An up-tree's parent list is accepted exactly when it has at most one
/// entry, or when one node is its own parent, the root, and from the parent
/// of every node, following parents reaches the root within as many steps
/// as the list has entries, never leaving the list.
pub proof fn law_uptree_accepted(pl: Seq<usize>)
    ensures
        (uptree_error(pl) is None) <==> (pl.len() <= 1 || exists|root: usize|
            #![trigger sole_root(pl, root)]
            sole_root(pl, root) && forall|i: int| 0 <= i < pl.len() ==> reaches(pl, root, #[trigger] pl[i], pl.len())),
{
    if pl.len() > 1 {
        let n = pl.len() as int;
        lemma_root_count(pl, n);
        let root = last_root(pl, n);
        lemma_bad_walk_none(pl, root, 0);
        if uptree_error(pl) is None {
            assert(sole_root(pl, root));
            assert forall|i: int| 0 <= i < pl.len() implies reaches(pl, root, #[trigger] pl[i], pl.len()) by {
                lemma_walk_reaches(pl, root, pl[i], pl.len());
            }
        }
        if exists|r: usize| #![trigger sole_root(pl, r)]
            sole_root(pl, r) && forall|i: int| 0 <= i < pl.len() ==> reaches(pl, r, #[trigger] pl[i], pl.len()) {
            let r = choose|r: usize| #![trigger sole_root(pl, r)]
                sole_root(pl, r) && forall|i: int| 0 <= i < pl.len() ==> reaches(pl, r, #[trigger] pl[i], pl.len());
            assert(pl[r as int] == r as int);
            assert(root_count(pl, n) == 1);
            assert(root == r);
            assert forall|j: int| 0 <= j < pl.len() implies walk_end(pl, root, #[trigger] pl[j], pl.len()) is None by {
                lemma_walk_reaches(pl, root, pl[j], pl.len());
            }
        }
    }
}

} // verus!
