//! The Linux namespaces that a container's configuration asks for, and which of
//! them are entered with `unshare(2)`.
use vstd::prelude::*;
use crate::flags::{
    clone_newcgroup, clone_newipc, clone_newnet, clone_newns, clone_newpid, clone_newuser,
    clone_newuts,
};

verus! {

/// The kinds of Linux namespace an OCI configuration can name.
#[derive(PartialEq, Eq, Structural, Clone, Copy, Debug)]
pub enum NamespaceType {
    Pid,
    Network,
    Mount,
    Ipc,
    Uts,
    User,
    Cgroup,
    Time,
}

/// One namespace entry of a configuration: its kind, and the path of an existing
/// namespace to join, if any.
pub struct Namespace {
    pub typ: NamespaceType,
    pub path: Option<String>,
}

pub struct NamespaceView {
    pub typ: NamespaceType,
    pub path: Option<Seq<char>>,
}

impl View for Namespace {
    type V = NamespaceView;

    open spec fn view(&self) -> NamespaceView {
        NamespaceView { typ: self.typ, path: self.path.deep_view() }
    }
}

/// Why a namespace cannot be set up.
#[derive(PartialEq, Eq, Structural, Clone, Copy, Debug)]
pub enum NamespaceError {
    /// Time namespaces are not supported.
    TimeNotSupported,
    /// Joining an existing namespace by its path (`setns`) is not implemented.
    SetnsNotImplemented,
    /// Creating cgroup and network namespaces is not implemented.
    UnshareNotImplemented,
}

impl NamespaceError {
    /// The text of the error.
    pub fn message(&self) -> (r: &'static str)
        ensures
            *self == NamespaceError::TimeNotSupported ==> r@ == "Time namespace is not supported"@,
            *self == NamespaceError::SetnsNotImplemented ==> r@ == "setns is not implemented"@,
            *self == NamespaceError::UnshareNotImplemented ==> r@
                == "unshare is not implemented for cgroup and network"@,
    {
        match self {
            NamespaceError::TimeNotSupported => "Time namespace is not supported",
            NamespaceError::SetnsNotImplemented => "setns is not implemented",
            NamespaceError::UnshareNotImplemented => "unshare is not implemented for cgroup and network",
        }
    }
}

/// The `CLONE_NEW*` flag that creates a namespace of kind `t`.
pub open spec fn clone_flag(t: NamespaceType) -> Result<i32, NamespaceError> {
    match t {
        NamespaceType::User => Ok(0x10000000i32),
        NamespaceType::Pid => Ok(0x20000000i32),
        NamespaceType::Uts => Ok(0x04000000i32),
        NamespaceType::Ipc => Ok(0x08000000i32),
        NamespaceType::Network => Ok(0x40000000i32),
        NamespaceType::Cgroup => Ok(0x02000000i32),
        NamespaceType::Mount => Ok(0x00020000i32),
        NamespaceType::Time => Err(NamespaceError::TimeNotSupported),
    }
}

/// The flag that `unshare(2)` takes to create a namespace of kind `ns_type`,
/// read from `nix`'s `CloneFlags`.
pub fn get_clone_flag(ns_type: &NamespaceType) -> (r: Result<i32, NamespaceError>)
    ensures
        r == clone_flag(*ns_type),
{
    let flag = match ns_type {
        NamespaceType::User => clone_newuser(),
        NamespaceType::Pid => clone_newpid(),
        NamespaceType::Uts => clone_newuts(),
        NamespaceType::Ipc => clone_newipc(),
        NamespaceType::Network => clone_newnet(),
        NamespaceType::Cgroup => clone_newcgroup(),
        NamespaceType::Mount => clone_newns(),
        NamespaceType::Time => {
            return Err(NamespaceError::TimeNotSupported);
        },
    };
    Ok(flag)
}

/// The index of the first entry of kind `t` in `ns`, if there is one.
pub open spec fn first_of_type(ns: Seq<NamespaceView>, t: NamespaceType) -> Option<int>
    decreases ns.len(),
{
    if ns.len() == 0 {
        None
    } else {
        match first_of_type(ns.drop_last(), t) {
            Some(i) => Some(i),
            None => if ns.last().typ == t {
                Some(ns.len() - 1)
            } else {
                None
            },
        }
    }
}

/// `first_of_type` finds the first entry of its kind, and only when there is one.
pub proof fn lemma_first_of_type(ns: Seq<NamespaceView>, t: NamespaceType)
    ensures
        first_of_type(ns, t) is Some <==> exists|i: int| 0 <= i < ns.len() && ns[i].typ == t,
        first_of_type(ns, t) matches Some(k) ==> {
            &&& 0 <= k < ns.len()
            &&& ns[k].typ == t
            &&& forall|j: int| 0 <= j < k ==> ns[j].typ != t
        },
    decreases ns.len(),
{
    if ns.len() > 0 {
        let rest = ns.drop_last();
        lemma_first_of_type(rest, t);
        if first_of_type(rest, t) is None {
            assert forall|i: int| 0 <= i < rest.len() implies ns[i].typ != t by {
                assert(rest[i] == ns[i]);
                if ns[i].typ == t {
                    assert(exists|j: int| 0 <= j < rest.len() && rest[j].typ == t);
                }
            }
        } else {
            let k = first_of_type(rest, t)->0;
            assert(rest[k] == ns[k]);
            assert forall|j: int| 0 <= j < k implies ns[j].typ != t by {
                assert(rest[j] == ns[j]);
            }
        }
    }
}

/// When a prefix of the entries holds one of kind `t`, the first of the prefix is the
/// first of all the entries.
pub proof fn lemma_first_of_type_prefix(ns: Seq<NamespaceView>, t: NamespaceType, k: int)
    requires
        0 <= k <= ns.len(),
        first_of_type(ns.take(k), t) is Some,
    ensures
        first_of_type(ns, t) == first_of_type(ns.take(k), t),
    decreases ns.len() - k,
{
    if k < ns.len() {
        assert(ns.take(k + 1).drop_last() =~= ns.take(k));
        lemma_first_of_type_prefix(ns, t, k + 1);
    } else {
        assert(ns.take(k) =~= ns);
    }
}

/// What applying the namespace of kind `t` amounts to for the entries `ns`:
/// nothing (`Ok(None)`) when no entry asks for it, the flag to `unshare(2)` with
/// (`Ok(Some(flag))`), or the reason it cannot be done.
pub open spec fn namespace_action(ns: Seq<NamespaceView>, t: NamespaceType) -> Result<Option<i32>, NamespaceError> {
    match first_of_type(ns, t) {
        None => Ok(None),
        Some(i) => if ns[i].path is Some {
            Err(NamespaceError::SetnsNotImplemented)
        } else if t == NamespaceType::Cgroup || t == NamespaceType::Network {
            Err(NamespaceError::UnshareNotImplemented)
        } else {
            match clone_flag(t) {
                Ok(flag) => Ok(Some(flag)),
                Err(e) => Err(e),
            }
        },
    }
}

/// The outcome of applying, in order, the entries of `ns` for which the filter said
/// `picks[i]`: the flags to `unshare(2)` with, in order, and the error that stopped
/// it, if any.
pub open spec fn namespaces_plan(ns: Seq<NamespaceView>, picks: Seq<bool>) -> (Seq<i32>, Option<NamespaceError>)
    decreases picks.len(),
{
    if picks.len() == 0 {
        (Seq::empty(), None)
    } else {
        let before = namespaces_plan(ns, picks.drop_last());
        if before.1 is Some || !picks.last() {
            before
        } else {
            match namespace_action(ns, ns[picks.len() - 1].typ) {
                Ok(Some(flag)) => (before.0.push(flag), None),
                Ok(None) => before,
                Err(e) => (before.0, Some(e)),
            }
        }
    }
}

/// `picks[i]` is what `filter` answered for the kind of the `i`th entry of `ns`.
pub open spec fn answers_of<F: Fn(&NamespaceType) -> bool>(filter: F, ns: Seq<NamespaceView>, picks: Seq<bool>) -> bool {
    forall|i: int| 0 <= i < picks.len() ==> call_ensures(filter, (&ns[i].typ,), #[trigger] picks[i])
}

/// Applying one more entry: the outcome so far stays when it already holds an error or
/// the filter passes the entry over; else the entry's flag is added, or its error set.
pub proof fn lemma_plan_step_law(ns: Seq<NamespaceView>, picks: Seq<bool>, picked: bool)
    ensures
        namespaces_plan(ns, picks.push(picked)) == if namespaces_plan(ns, picks).1 is Some || !picked {
            namespaces_plan(ns, picks)
        } else {
            match namespace_action(ns, ns[picks.len() as int].typ) {
                Ok(Some(flag)) => (namespaces_plan(ns, picks).0.push(flag), None),
                Ok(None) => namespaces_plan(ns, picks),
                Err(e) => (namespaces_plan(ns, picks).0, Some(e)),
            }
        },
{
    assert(picks.push(picked).drop_last() =~= picks);
}

/// Once applying the entries has stopped at an error, the answers of the filter for
/// the entries after it change nothing: the outcome for all answers is the outcome
/// for the answers up to the error.
pub proof fn lemma_plan_stops_at_error(ns: Seq<NamespaceView>, picks: Seq<bool>, k: int)
    requires
        0 <= k <= picks.len(),
        namespaces_plan(ns, picks.take(k)).1 is Some,
    ensures
        namespaces_plan(ns, picks) == namespaces_plan(ns, picks.take(k)),
    decreases picks.len() - k,
{
    if k < picks.len() {
        assert(picks.take(k + 1).drop_last() =~= picks.take(k));
        assert(namespaces_plan(ns, picks.take(k + 1)) == namespaces_plan(ns, picks.take(k)));
        lemma_plan_stops_at_error(ns, picks, k + 1);
    } else {
        assert(picks.take(k) =~= picks);
    }
}

/// A namespace is entered only with the flag of its own kind, and never when it is a
/// cgroup or network namespace.
pub proof fn lemma_action_flag(ns: Seq<NamespaceView>, t: NamespaceType)
    ensures
        namespace_action(ns, t) matches Ok(Some(flag)) ==> {
            &&& clone_flag(t) == Ok::<i32, NamespaceError>(flag)
            &&& t != NamespaceType::Cgroup
            &&& t != NamespaceType::Network
        },
{
}

proof fn lemma_map_push(s: Seq<Namespace>, n: Namespace)
    ensures
        s.push(n).map_values(|m: Namespace| m@) =~= s.map_values(|m: Namespace| m@).push(n@),
{
}

/// The namespaces to enter, in order, and the error that stopped the set-up.
pub struct NamespacePlan {
    /// The flags to call `unshare(2)` with, one call each, in order.
    pub unshare: Vec<i32>,
    /// The error to report once the calls above have been made, if any.
    pub error: Option<NamespaceError>,
}

/// The namespace entries of a configuration.
pub struct Namespaces(Vec<Namespace>);

impl View for Namespaces {
    type V = Seq<NamespaceView>;

    closed spec fn view(&self) -> Seq<NamespaceView> {
        self.0@.map_values(|n: Namespace| n@)
    }
}

fn copy_namespace(n: &Namespace) -> (r: Namespace)
    ensures
        r@ == n@,
{
    Namespace {
        typ: n.typ,
        path: match &n.path {
            Some(p) => Some(p.clone()),
            None => None,
        },
    }
}

impl Namespaces {
    /// The entries in order.
    pub closed spec fn entries(&self) -> Seq<Namespace> {
        self.0@
    }

    pub proof fn lemma_view_of_entries(&self)
        ensures
            self@ == self.entries().map_values(|n: Namespace| n@),
            self@.len() == self.entries().len(),
    {
    }

    /// The namespaces of a configuration's `linux.namespaces`, none when it has none.
    pub fn try_from(namespaces: Option<&Vec<Namespace>>) -> (r: Result<Namespaces, NamespaceError>)
        ensures
            r is Ok,
            r matches Ok(ns) ==> ns@ == match namespaces {
                Some(v) => v@.map_values(|n: Namespace| n@),
                None => Seq::<NamespaceView>::empty(),
            },
    {
        let mut copied: Vec<Namespace> = Vec::new();
        match namespaces {
            None => {
                assert(copied@.map_values(|n: Namespace| n@) =~= Seq::<NamespaceView>::empty());
            },
            Some(v) => {
                let mut i: usize = 0;
                while i < v.len()
                    invariant
                        i <= v@.len(),
                        copied@.map_values(|n: Namespace| n@) =~= v@.take(i as int).map_values(
                            |n: Namespace| n@,
                        ),
                    decreases v@.len() - i,
                {
                    let n = copy_namespace(&v[i]);
                    let ghost before = copied@;
                    copied.push(n);
                    proof {
                        assert(copied@ =~= before.push(n));
                        assert(v@.take(i + 1) =~= v@.take(i as int).push(v@[i as int]));
                        lemma_map_push(before, n);
                        lemma_map_push(v@.take(i as int), v@[i as int]);
                    }
                    i += 1;
                }
                assert(v@.take(v@.len() as int) =~= v@);
            },
        }
        Ok(Namespaces(copied))
    }

    /// An iterator over the entries, in order.
    pub fn iter(&self) -> (r: std::slice::Iter<'_, Namespace>)
        ensures
            vstd::std_specs::slice::into_iter_elts(r) == self.entries(),
    {
        broadcast use vstd::std_specs::slice::axiom_spec_slice_iter;

        self.0.as_slice().iter()
    }

    /// Whether some entry is of kind `ns_type`.
    pub fn contains(&self, ns_type: &NamespaceType) -> (r: bool)
        ensures
            r == exists|i: int| 0 <= i < self@.len() && self@[i].typ == *ns_type,
    {
        let mut i: usize = 0;
        while i < self.0.len()
            invariant
                i <= self.0@.len(),
                forall|j: int| 0 <= j < i ==> self@[j].typ != *ns_type,
            decreases self.0@.len() - i,
        {
            if self.0[i].typ == *ns_type {
                assert(self@[i as int].typ == *ns_type);
                return true;
            }
            i += 1;
        }
        false
    }

    /// The first entry of kind `ns_type`.
    pub fn get(&self, ns_type: &NamespaceType) -> (r: Option<&Namespace>)
        ensures
            r is Some <==> first_of_type(self@, *ns_type) is Some,
            r matches Some(n) ==> n@ == self@[first_of_type(self@, *ns_type)->0],
    {
        let ghost ns = self@;
        let mut i: usize = 0;
        while i < self.0.len()
            invariant
                ns == self@,
                ns.len() == self.0@.len(),
                i <= ns.len(),
                first_of_type(ns.take(i as int), *ns_type) is None,
            decreases ns.len() - i,
        {
            assert(ns.take(i + 1).drop_last() =~= ns.take(i as int));
            if self.0[i].typ == *ns_type {
                proof {
                    lemma_first_of_type_prefix(ns, *ns_type, i + 1);
                }
                return Some(&self.0[i]);
            }
            i += 1;
        }
        assert(ns.take(ns.len() as int) =~= ns);
        None
    }

    /// What applying the namespace of kind `ns_type` amounts to: nothing when no entry
    /// asks for it, else the flag to call `unshare(2)` with, or why it cannot be done.
    pub fn apply_namespace(&self, ns_type: &NamespaceType) -> (r: Result<Option<i32>, NamespaceError>)
        ensures
            r == namespace_action(self@, *ns_type),
    {
        proof {
            lemma_first_of_type(self@, *ns_type);
        }
        if !self.contains(ns_type) {
            return Ok(None);
        }
        let namespace = self.get(ns_type).unwrap();
        match &namespace.path {
            Some(_) => Err(NamespaceError::SetnsNotImplemented),
            None => {
                if *ns_type == NamespaceType::Cgroup || *ns_type == NamespaceType::Network {
                    return Err(NamespaceError::UnshareNotImplemented);
                }
                let flag = get_clone_flag(ns_type)?;
                Ok(Some(flag))
            },
        }
    }

    /// Applies, in order, each entry whose kind `filter` accepts, and stops at the first
    /// that cannot be applied. The result lists the `unshare(2)` calls to make and the
    /// error that stopped the set-up; `picks` below are the answers of `filter`.
    pub fn apply_namespaces<F: Fn(&NamespaceType) -> bool>(&self, filter: F) -> (r: NamespacePlan)
        requires
            forall|t: NamespaceType| call_requires(filter, (&t,)),
        ensures
            exists|picks: Seq<bool>|
                {
                    &&& #[trigger] answers_of(filter, self@, picks)
                    &&& picks.len() <= self@.len()
                    &&& r.error is None ==> picks.len() == self@.len()
                    &&& r.error is Some ==> picks.len() > 0 && namespaces_plan(
                        self@,
                        picks.drop_last(),
                    ).1 is None
                    &&& namespaces_plan(self@, picks) == (r.unshare@, r.error)
                },
    {
        let mut unshare: Vec<i32> = Vec::new();
        let mut error: Option<NamespaceError> = None;
        let ghost mut picks: Seq<bool> = Seq::empty();
        assert(namespaces_plan(self@, picks) == (unshare@, None::<NamespaceError>));
        let mut i: usize = 0;
        while i < self.0.len() && error.is_none()
            invariant
                forall|t: NamespaceType| call_requires(filter, (&t,)),
                i <= self.0@.len(),
                picks.len() == i,
                answers_of(filter, self@, picks),
                namespaces_plan(self@, picks) == (unshare@, error),
                error is Some ==> i > 0 && namespaces_plan(self@, picks.drop_last()).1 is None,
            decreases self.0@.len() - i,
        {
            let t = self.0[i].typ;
            assert(t == self@[i as int].typ);
            let picked = filter(&t);
            let ghost before = picks;
            proof {
                picks = picks.push(picked);
                lemma_plan_step_law(self@, before, picked);
                assert(picks.drop_last() =~= before);
            }
            if picked {
                let action = self.apply_namespace(&t);
                assert(action == namespace_action(self@, self@[before.len() as int].typ));
                match action {
                    Ok(Some(flag)) => {
                        assert(namespaces_plan(self@, picks) == (unshare@.push(flag), None::<NamespaceError>));
                        unshare.push(flag);
                    },
                    Ok(None) => {
                        assert(namespaces_plan(self@, picks) == (unshare@, None::<NamespaceError>));
                    },
                    Err(e) => {
                        assert(namespaces_plan(self@, picks) == (unshare@, Some(e)));
                        error = Some(e);
                    },
                }
            }
            i += 1;
        }
        NamespacePlan { unshare, error }
    }
}


/// Applying the namespace of kind `t` amounts to nothing exactly when no entry of `ns`
/// is of kind `t`.
pub proof fn lemma_namespace_action_nothing(ns: Seq<NamespaceView>, t: NamespaceType)
    ensures
        namespace_action(ns, t) == Ok::<Option<i32>, NamespaceError>(None) <==> forall|i: int|
            0 <= i < ns.len() ==> (#[trigger] ns[i]).typ != t,
{
    lemma_first_of_type(ns, t);
    if first_of_type(ns, t) is None {
        assert forall|i: int| 0 <= i < ns.len() implies (#[trigger] ns[i]).typ != t by {
            if ns[i].typ == t {
                assert(exists|i: int| 0 <= i < ns.len() && ns[i].typ == t);
            }
        }
    }
}

/// When the entry at `k` is the first of kind `t` in `ns`, applying `t` goes by that
/// entry. When it names a path to join, it cannot be done; else a cgroup or network
/// namespace cannot be created, nor a time namespace, and every other kind is created
/// with `unshare(2)` and its own flag: `CLONE_NEWUSER` (0x10000000), `CLONE_NEWPID`
/// (0x20000000), `CLONE_NEWUTS` (0x04000000), `CLONE_NEWIPC` (0x08000000), `CLONE_NEWNS`
/// (0x00020000).
pub proof fn lemma_namespace_action_first_entry(ns: Seq<NamespaceView>, t: NamespaceType, k: int)
    requires
        0 <= k < ns.len(),
        ns[k].typ == t,
        forall|j: int| 0 <= j < k ==> (#[trigger] ns[j]).typ != t,
    ensures
        ({
            let action = namespace_action(ns, t);
            let joins = ns[k].path is Some;
            &&& joins ==> action == Err::<Option<i32>, NamespaceError>(NamespaceError::SetnsNotImplemented)
            &&& !joins && (t == NamespaceType::Cgroup || t == NamespaceType::Network) ==> action == Err::<
                Option<i32>,
                NamespaceError,
            >(NamespaceError::UnshareNotImplemented)
            &&& !joins && t == NamespaceType::Time ==> action == Err::<Option<i32>, NamespaceError>(
                NamespaceError::TimeNotSupported,
            )
            &&& !joins && t == NamespaceType::User ==> action == Ok::<Option<i32>, NamespaceError>(Some(0x10000000i32))
            &&& !joins && t == NamespaceType::Pid ==> action == Ok::<Option<i32>, NamespaceError>(Some(0x20000000i32))
            &&& !joins && t == NamespaceType::Uts ==> action == Ok::<Option<i32>, NamespaceError>(Some(0x04000000i32))
            &&& !joins && t == NamespaceType::Ipc ==> action == Ok::<Option<i32>, NamespaceError>(Some(0x08000000i32))
            &&& !joins && t == NamespaceType::Mount ==> action == Ok::<Option<i32>, NamespaceError>(
                Some(0x00020000i32),
            )
        }),
{
    lemma_first_of_type(ns, t);
    let f = first_of_type(ns, t)->0;
    if f < k {
        assert(ns[f].typ == t);
    }
    assert(f == k);
}

/// Applying the picked entries stops at the first picked entry that cannot be applied,
/// with its error: there is no error exactly when every picked entry can be applied,
/// and otherwise the error is that of the first picked entry that cannot.
pub proof fn lemma_plan_first_error(ns: Seq<NamespaceView>, picks: Seq<bool>)
    requires
        picks.len() <= ns.len(),
    ensures
        namespaces_plan(ns, picks).1 is None <==> forall|i: int|
            0 <= i < picks.len() && #[trigger] picks[i] ==> namespace_action(ns, ns[i].typ) is Ok,
        forall|i: int|
            0 <= i < picks.len() && #[trigger] picks[i] && namespace_action(ns, ns[i].typ) is Err && (forall|j: int|
                0 <= j < i && picks[j] ==> namespace_action(ns, ns[j].typ) is Ok) ==> namespaces_plan(ns, picks).1
                == Some(namespace_action(ns, ns[i].typ)->Err_0),
    decreases picks.len(),
{
    if picks.len() > 0 {
        let rest = picks.drop_last();
        let k = rest.len() as int;
        lemma_plan_first_error(ns, rest);
        assert forall|i: int| 0 <= i < k implies rest[i] == picks[i] by {}
        let before = namespaces_plan(ns, rest);
        if before.1 is Some {
            let w = choose|i: int|
                0 <= i < rest.len() && #[trigger] rest[i] && !(namespace_action(ns, ns[i].typ) is Ok);
            assert(picks[w]);
        }
        assert forall|i: int|
            0 <= i < picks.len() && #[trigger] picks[i] && namespace_action(ns, ns[i].typ) is Err && (forall|j: int|
                0 <= j < i && picks[j] ==> namespace_action(ns, ns[j].typ) is Ok) implies namespaces_plan(ns, picks).1
            == Some(namespace_action(ns, ns[i].typ)->Err_0) by {
            if i < k {
                assert(rest[i]);
                assert forall|j: int| 0 <= j < i && rest[j] implies namespace_action(ns, ns[j].typ) is Ok by {
                    assert(picks[j]);
                }
            } else {
                assert forall|j: int| 0 <= j < k && #[trigger] rest[j] implies namespace_action(ns, ns[j].typ) is Ok by {
                    assert(picks[j]);
                }
            }
        }
    }
}

} // verus!
