//! The registry of PHP installations: one entry per version, built from
//! probed executables and merged across search directories.
use vstd::prelude::*;
use vstd::string::*;
use crate::discovery::{binary_metadata, metadata_spec};
use crate::php::{
    merged, BinaryModel, PhpBinary, PhpServerSapi, PhpVersion, empty_binary, slot, with_slot,
};

verus! {

/// What each binary of a list holds.
pub open spec fn models(v: Seq<PhpBinary>) -> Seq<BinaryModel> {
    v.map_values(|b: PhpBinary| b@)
}

/// Whether `i` is the first position of version `v` in `reg`.
pub open spec fn is_first_index(reg: Seq<BinaryModel>, v: Seq<char>, i: int) -> bool {
    &&& 0 <= i < reg.len()
    &&& reg[i].version == v
    &&& forall|j: int| 0 <= j < i ==> reg[j].version != v
}

/// The first position of version `v` in `reg`, if any.
pub open spec fn first_index(reg: Seq<BinaryModel>, v: Seq<char>) -> Option<int> {
    if exists|i: int| is_first_index(reg, v, i) {
        Some(choose|i: int| is_first_index(reg, v, i))
    } else {
        None
    }
}

proof fn lemma_first_index(reg: Seq<BinaryModel>, v: Seq<char>, i: int)
    requires
        is_first_index(reg, v, i),
    ensures
        first_index(reg, v) == Some(i),
{
    let k = choose|k: int| is_first_index(reg, v, k);
    assert(is_first_index(reg, v, k));
    if k < i {
        assert(reg[k].version != v);
    } else if i < k {
        assert(reg[i].version != v);
    }
}

/// Finds the position of `version` in `reg`.
pub fn find_version(reg: &Vec<PhpBinary>, version: &PhpVersion) -> (r: Option<usize>)
    ensures
        r is None <==> first_index(models(reg@), version@) is None,
        r matches Some(i) ==> first_index(models(reg@), version@) == Some(i as int),
{
    let ghost m = models(reg@);
    let mut i: usize = 0;
    while i < reg.len()
        invariant
            m == models(reg@),
            i <= reg.len(),
            forall|j: int| 0 <= j < i ==> m[j].version != version@,
        decreases reg.len() - i,
    {
        if reg[i].version() == version {
            proof {
                lemma_first_index(m, version@, i as int);
            }
            return Some(i);
        }
        i = i + 1;
    }
    assert(!exists|k: int| is_first_index(m, version@, k));
    None
}

/// The registry after the probe of `path`, whose `php --version` printed
/// `out`: an executable of a known SAPI is added to its version's entry
/// unless that entry already has one for the SAPI; anything else is skipped.
pub open spec fn probe_step(reg: Seq<BinaryModel>, path: Seq<char>, out: Seq<char>) -> Seq<BinaryModel> {
    match metadata_spec(out) {
        None => reg,
        Some((v, s)) => if s == PhpServerSapi::Unknown {
            reg
        } else {
            match first_index(reg, v) {
                Some(i) => if slot(reg[i], s).len() > 0 {
                    reg
                } else {
                    reg.update(i, with_slot(reg[i], s, path))
                },
                None => reg.push(with_slot(empty_binary(v), s, path)),
            }
        },
    }
}

/// The registry built from probes `(path, output)`, taken in order.
pub open spec fn probes_registry(probes: Seq<(Seq<char>, Seq<char>)>) -> Seq<BinaryModel>
    decreases probes.len(),
{
    if probes.len() == 0 {
        Seq::empty()
    } else {
        probe_step(probes_registry(probes.drop_last()), probes.last().0, probes.last().1)
    }
}

/// The paths and outputs of a list of probes.
pub open spec fn probe_views(probes: Seq<(String, String)>) -> Seq<(Seq<char>, Seq<char>)> {
    probes.map_values(|p: (String, String)| (p.0@, p.1@))
}

/// Groups probed executables by the version they report. Each probe is the
/// executable's path and what `php --version` printed; outputs that are not
/// those of PHP, and SAPIs that are unknown, are left out.
pub fn group_probes(probes: &Vec<(String, String)>) -> (r: Vec<PhpBinary>)
    ensures
        models(r@) == probes_registry(probe_views(probes@)),
        versions_unique(models(r@)),
{
    let ghost pv = probe_views(probes@);
    let mut reg: Vec<PhpBinary> = Vec::new();
    let mut i: usize = 0;
    assert(models(reg@) =~= probes_registry(pv.take(0)));
    while i < probes.len()
        invariant
            pv == probe_views(probes@),
            i <= probes.len(),
            models(reg@) == probes_registry(pv.take(i as int)),
        decreases probes.len() - i,
    {
        let ghost before = models(reg@);
        assert(pv.take(i + 1).drop_last() =~= pv.take(i as int));
        assert(pv.take(i + 1).last() == (probes@[i as int].0@, probes@[i as int].1@));
        let path = &probes[i].0;
        match binary_metadata(probes[i].1.as_str()) {
            None => {},
            Some((version, sapi)) => {
                if sapi != PhpServerSapi::Unknown {
                    match find_version(&reg, &version) {
                        Some(k) => {
                            if !reg[k].has_sapi(&sapi) {
                                let mut b = reg.remove(k);
                                b.add_sapi(&sapi, path);
                                reg.insert(k, b);
                                assert(models(reg@) =~= before.update(k as int, with_slot(before[k as int], sapi, path@)));
                            }
                        },
                        None => {
                            let mut b = PhpBinary::from_version(version);
                            b.add_sapi(&sapi, path);
                            reg.push(b);
                            assert(models(reg@) =~= before.push(with_slot(empty_binary(version@), sapi, path@)));
                        },
                    }
                }
            },
        }
        i = i + 1;
    }
    assert(pv.take(i as int) =~= pv);
    proof {
        lemma_probes_registry_unique(pv);
    }
    reg
}

/// Whether some probe ran the executable `path` and reported version `v`
/// and SAPI `sapi`.
pub open spec fn probed_as(
    probes: Seq<(Seq<char>, Seq<char>)>,
    path: Seq<char>,
    v: Seq<char>,
    sapi: PhpServerSapi,
) -> bool {
    exists|k: int| 0 <= k < probes.len() && probes[k].0 == path && metadata_spec(probes[k].1) == Some((v, sapi))
}

/// Every executable in a registry built from probes was probed, and its
/// output followed the `PHP X.Y.Z (...)` grammar with the entry's version
/// and that SAPI: a path whose output does not match never enters the
/// registry.
pub proof fn lemma_registry_paths_were_probed(
    probes: Seq<(Seq<char>, Seq<char>)>,
    i: int,
    sapi: PhpServerSapi,
)
    requires
        0 <= i < probes_registry(probes).len(),
        slot(probes_registry(probes)[i], sapi).len() > 0,
    ensures
        probed_as(probes, slot(probes_registry(probes)[i], sapi), probes_registry(probes)[i].version, sapi),
    decreases probes.len(),
{
    let prev = probes.drop_last();
    let reg0 = probes_registry(prev);
    let reg = probes_registry(probes);
    let path = probes.last().0;
    let out = probes.last().1;
    let last = probes.len() - 1;
    assert(probes[last] == (path, out));
    let b = reg[i];
    if 0 <= i < reg0.len() && reg[i] == reg0[i] {
        lemma_registry_paths_were_probed(prev, i, sapi);
        let k = choose|k: int| 0 <= k < prev.len() && prev[k].0 == slot(reg0[i], sapi)
            && metadata_spec(prev[k].1) == Some((reg0[i].version, sapi));
        assert(probes[k] == prev[k]);
    } else {
        let (v, s) = metadata_spec(out)->0;
        assert(metadata_spec(out) == Some((v, s)));
        assert(s != PhpServerSapi::Unknown);
        if first_index(reg0, v) is Some {
            let j = first_index(reg0, v)->0;
            assert(is_first_index(reg0, v, j));
            assert(i == j);
            if sapi != s {
                assert(slot(b, sapi) == slot(reg0[i], sapi));
                assert(b.version == reg0[i].version);
                lemma_registry_paths_were_probed(prev, i, sapi);
                let k = choose|k: int| 0 <= k < prev.len() && prev[k].0 == slot(reg0[i], sapi)
                    && metadata_spec(prev[k].1) == Some((reg0[i].version, sapi));
                assert(probes[k] == prev[k]);
            } else {
                assert(slot(b, sapi) == path);
            }
        } else {
            assert(i == reg0.len());
            assert(b == with_slot(empty_binary(v), s, path));
            assert(sapi == s);
            assert(slot(b, sapi) == path);
        }
    }
}

/// The registry after `b` from a later search directory is merged in: `b`
/// is the system's PHP exactly when the registry is still empty; an entry of
/// the same version takes the SAPIs it lacks from `b`, else `b` is added.
pub open spec fn merge_step(reg: Seq<BinaryModel>, b: BinaryModel) -> Seq<BinaryModel> {
    let b2 = BinaryModel { system: reg.len() == 0, ..b };
    match first_index(reg, b.version) {
        Some(i) => reg.update(i, merged(reg[i], b2)),
        None => reg.push(b2),
    }
}

/// The registry after the binaries `from` are merged in, in order.
pub open spec fn merge_all(reg: Seq<BinaryModel>, from: Seq<BinaryModel>) -> Seq<BinaryModel>
    decreases from.len(),
{
    if from.len() == 0 {
        reg
    } else {
        merge_all(merge_step(reg, from[0]), from.skip(1))
    }
}

/// The registry made of the registries of several search directories, in
/// search order.
pub open spec fn merge_dirs(reg: Seq<BinaryModel>, dirs: Seq<Seq<BinaryModel>>) -> Seq<BinaryModel>
    decreases dirs.len(),
{
    if dirs.len() == 0 {
        reg
    } else {
        merge_dirs(merge_all(reg, dirs[0]), dirs.skip(1))
    }
}

/// Merges the binaries found in one more search directory into `into`.
pub fn merge_binaries(into: &mut Vec<PhpBinary>, from: Vec<PhpBinary>)
    ensures
        models(final(into)@) == merge_all(models(old(into)@), models(from@)),
        versions_unique(models(old(into)@)) ==> versions_unique(models(final(into)@)),
{
    proof {
        if versions_unique(models(into@)) {
            lemma_merge_all_unique(models(into@), models(from@));
        }
    }
    let ghost goal = merge_all(models(into@), models(from@));
    let mut from = from;
    while from.len() > 0
        invariant
            merge_all(models(into@), models(from@)) == goal,
        decreases from.len(),
    {
        let ghost reg0 = models(into@);
        let ghost rest = models(from@);
        let mut b = from.remove(0);
        assert(models(from@) =~= rest.skip(1));
        assert(b@ == rest[0]);
        let empty = into.len() == 0;
        b.set_system(empty);
        match find_version(into, b.version()) {
            Some(i) => {
                let mut e = into.remove(i);
                e.merge_with(b);
                into.insert(i, e);
                assert(models(into@) =~= merge_step(reg0, rest[0]));
            },
            None => {
                into.push(b);
                assert(models(into@) =~= merge_step(reg0, rest[0]));
            },
        }
    }
    assert(models(from@) =~= Seq::<BinaryModel>::empty());
}

/// Builds the registry from the registries of the search directories, taken
/// in search order (the default search path first).
pub fn get_all(dirs: Vec<Vec<PhpBinary>>) -> (r: Vec<PhpBinary>)
    ensures
        models(r@) == merge_dirs(Seq::empty(), dirs@.map_values(|d: Vec<PhpBinary>| models(d@))),
        versions_unique(models(r@)),
{
    proof {
        lemma_merge_dirs_unique(Seq::empty(), dirs@.map_values(|d: Vec<PhpBinary>| models(d@)));
    }
    let ghost goal = merge_dirs(Seq::empty(), dirs@.map_values(|d: Vec<PhpBinary>| models(d@)));
    let mut dirs = dirs;
    let mut r: Vec<PhpBinary> = Vec::new();
    assert(models(r@) =~= Seq::<BinaryModel>::empty());
    while dirs.len() > 0
        invariant
            merge_dirs(models(r@), dirs@.map_values(|d: Vec<PhpBinary>| models(d@))) == goal,
        decreases dirs.len(),
    {
        let ghost rest = dirs@.map_values(|d: Vec<PhpBinary>| models(d@));
        let d = dirs.remove(0);
        assert(dirs@.map_values(|d: Vec<PhpBinary>| models(d@)) =~= rest.skip(1));
        merge_binaries(&mut r, d);
    }
    assert(dirs@.map_values(|d: Vec<PhpBinary>| models(d@)) =~= Seq::<Seq<BinaryModel>>::empty());
    r
}

/// The registry: the cached one when there is a cache, else the one that
/// `scan` discovers.
pub fn all<F: FnOnce() -> Vec<PhpBinary>>(cached: Option<Vec<PhpBinary>>, scan: F) -> (r: Vec<PhpBinary>)
    requires
        cached is None ==> call_requires(scan, ()),
    ensures
        cached is Some ==> r == cached->0,
        cached is None ==> call_ensures(scan, (), r),
{
    match cached {
        Some(reg) => reg,
        None => scan(),
    }
}

/// Whether no two entries of `reg` share a version.
pub open spec fn versions_unique(reg: Seq<BinaryModel>) -> bool {
    forall|i: int, j: int| 0 <= i < j < reg.len() ==> reg[i].version != reg[j].version
}

proof fn lemma_first_exists(reg: Seq<BinaryModel>, v: Seq<char>, i: int)
    requires
        0 <= i < reg.len(),
        reg[i].version == v,
    ensures
        first_index(reg, v) is Some,
    decreases i,
{
    if exists|j: int| 0 <= j < i && reg[j].version == v {
        let j = choose|j: int| 0 <= j < i && reg[j].version == v;
        lemma_first_exists(reg, v, j);
    } else {
        assert(is_first_index(reg, v, i));
    }
}

proof fn lemma_push_unique(reg: Seq<BinaryModel>, b: BinaryModel)
    requires
        versions_unique(reg),
        first_index(reg, b.version) is None,
    ensures
        versions_unique(reg.push(b)),
{
    assert forall|i: int, j: int| 0 <= i < j < reg.push(b).len() implies reg.push(b)[i].version
        != reg.push(b)[j].version by {
        if j == reg.len() && reg[i].version == b.version {
            lemma_first_exists(reg, b.version, i);
        }
    }
}

proof fn lemma_probes_registry_unique(probes: Seq<(Seq<char>, Seq<char>)>)
    ensures
        versions_unique(probes_registry(probes)),
    decreases probes.len(),
{
    if probes.len() > 0 {
        let prev = probes_registry(probes.drop_last());
        lemma_probes_registry_unique(probes.drop_last());
        let out = probes.last().1;
        if let Some((v, s)) = metadata_spec(out) {
            if s != PhpServerSapi::Unknown {
                match first_index(prev, v) {
                    Some(k) => {
                        assert(is_first_index(prev, v, k));
                    },
                    None => {
                        lemma_push_unique(prev, with_slot(empty_binary(v), s, probes.last().0));
                    },
                }
            }
        }
    }
}

proof fn lemma_merge_all_unique(reg: Seq<BinaryModel>, from: Seq<BinaryModel>)
    requires
        versions_unique(reg),
    ensures
        versions_unique(merge_all(reg, from)),
    decreases from.len(),
{
    if from.len() > 0 {
        let b = from[0];
        let b2 = BinaryModel { system: reg.len() == 0, ..b };
        match first_index(reg, b.version) {
            Some(k) => {
                assert(is_first_index(reg, b.version, k));
            },
            None => {
                lemma_push_unique(reg, b2);
            },
        }
        lemma_merge_all_unique(merge_step(reg, b), from.skip(1));
    }
}

proof fn lemma_merge_dirs_unique(reg: Seq<BinaryModel>, dirs: Seq<Seq<BinaryModel>>)
    requires
        versions_unique(reg),
    ensures
        versions_unique(merge_dirs(reg, dirs)),
    decreases dirs.len(),
{
    if dirs.len() > 0 {
        lemma_merge_all_unique(reg, dirs[0]);
        lemma_merge_dirs_unique(merge_all(reg, dirs[0]), dirs.skip(1));
    }
}

/// Whether some directory's probes ran `path` and reported version `v` and
/// SAPI `sapi`.
pub open spec fn probed_in_some(
    probes: Seq<Seq<(Seq<char>, Seq<char>)>>,
    path: Seq<char>,
    v: Seq<char>,
    sapi: PhpServerSapi,
) -> bool {
    exists|d: int| 0 <= d < probes.len() && probed_as(probes[d], path, v, sapi)
}

/// Whether every executable of `b` was probed in some directory and
/// reported `b`'s version and its SAPI.
pub open spec fn slots_probed(b: BinaryModel, probes: Seq<Seq<(Seq<char>, Seq<char>)>>) -> bool {
    forall|sapi: PhpServerSapi| #[trigger] slot(b, sapi).len() > 0 ==> probed_in_some(probes, slot(b, sapi), b.version, sapi)
}

/// Whether every entry of `reg` has only probed executables.
pub open spec fn all_probed(reg: Seq<BinaryModel>, probes: Seq<Seq<(Seq<char>, Seq<char>)>>) -> bool {
    forall|i: int| 0 <= i < reg.len() ==> slots_probed(#[trigger] reg[i], probes)
}

proof fn lemma_merge_step_probed(reg: Seq<BinaryModel>, b: BinaryModel, probes: Seq<Seq<(Seq<char>, Seq<char>)>>)
    requires
        all_probed(reg, probes),
        slots_probed(b, probes),
    ensures
        all_probed(merge_step(reg, b), probes),
{
    let b2 = BinaryModel { system: reg.len() == 0, ..b };
    assert forall|sapi: PhpServerSapi| #[trigger] slot(b2, sapi) == slot(b, sapi) by {}
    assert(slots_probed(b2, probes)) by {
        assert forall|sapi: PhpServerSapi| #[trigger] slot(b2, sapi).len() > 0 implies probed_in_some(
            probes, slot(b2, sapi), b2.version, sapi) by {
            assert(slot(b2, sapi) == slot(b, sapi));
        }
    }
    let r = merge_step(reg, b);
    match first_index(reg, b.version) {
        Some(k) => {
            assert(is_first_index(reg, b.version, k));
            let a = reg[k];
            let m = merged(a, b2);
            assert(slots_probed(a, probes));
            assert(slots_probed(m, probes)) by {
                assert forall|sapi: PhpServerSapi| #[trigger] slot(m, sapi).len() > 0 implies probed_in_some(
                    probes, slot(m, sapi), m.version, sapi) by {
                    assert(slot(m, sapi) == slot(a, sapi) || slot(m, sapi) == slot(b2, sapi));
                    if slot(m, sapi) == slot(a, sapi) {
                        assert(slot(a, sapi).len() > 0);
                    } else {
                        assert(slot(b2, sapi).len() > 0);
                    }
                }
            }
            assert forall|i: int| 0 <= i < r.len() implies slots_probed(#[trigger] r[i], probes) by {
                if i != k {
                    assert(r[i] == reg[i]);
                }
            }
        },
        None => {
            assert forall|i: int| 0 <= i < r.len() implies slots_probed(#[trigger] r[i], probes) by {
                if i < reg.len() {
                    assert(r[i] == reg[i]);
                }
            }
        },
    }
}

proof fn lemma_merge_all_probed(reg: Seq<BinaryModel>, from: Seq<BinaryModel>, probes: Seq<Seq<(Seq<char>, Seq<char>)>>)
    requires
        all_probed(reg, probes),
        all_probed(from, probes),
    ensures
        all_probed(merge_all(reg, from), probes),
    decreases from.len(),
{
    if from.len() > 0 {
        assert(slots_probed(from[0], probes));
        lemma_merge_step_probed(reg, from[0], probes);
        assert forall|i: int| 0 <= i < from.skip(1).len() implies slots_probed(#[trigger] from.skip(1)[i], probes) by {
            assert(from.skip(1)[i] == from[i + 1]);
        }
        lemma_merge_all_probed(merge_step(reg, from[0]), from.skip(1), probes);
    }
}

proof fn lemma_merge_dirs_probed(
    reg: Seq<BinaryModel>,
    dirs: Seq<Seq<BinaryModel>>,
    probes: Seq<Seq<(Seq<char>, Seq<char>)>>,
)
    requires
        all_probed(reg, probes),
        forall|d: int| 0 <= d < dirs.len() ==> all_probed(#[trigger] dirs[d], probes),
    ensures
        all_probed(merge_dirs(reg, dirs), probes),
    decreases dirs.len(),
{
    if dirs.len() > 0 {
        assert(all_probed(dirs[0], probes));
        lemma_merge_all_probed(reg, dirs[0], probes);
        assert forall|d: int| 0 <= d < dirs.skip(1).len() implies all_probed(#[trigger] dirs.skip(1)[d], probes) by {
            assert(dirs.skip(1)[d] == dirs[d + 1]);
        }
        lemma_merge_dirs_probed(merge_all(reg, dirs[0]), dirs.skip(1), probes);
    }
}

/// The registries of several search directories, each built from that
/// directory's probes.
pub open spec fn dir_registries(probes: Seq<Seq<(Seq<char>, Seq<char>)>>) -> Seq<Seq<BinaryModel>> {
    probes.map_values(|p: Seq<(Seq<char>, Seq<char>)>| probes_registry(p))
}

/// Across all search directories, the merged registry holds only probed
/// executables whose output followed the `PHP X.Y.Z (...)` grammar with the
/// entry's version and that SAPI; its versions are unique.
pub proof fn lemma_merged_registry_paths_were_probed(probes: Seq<Seq<(Seq<char>, Seq<char>)>>)
    ensures
        all_probed(merge_dirs(Seq::empty(), dir_registries(probes)), probes),
        versions_unique(merge_dirs(Seq::empty(), dir_registries(probes))),
{
    let dirs = dir_registries(probes);
    assert forall|d: int| 0 <= d < dirs.len() implies all_probed(#[trigger] dirs[d], probes) by {
        let reg = probes_registry(probes[d]);
        assert(dirs[d] == reg);
        assert forall|i: int| 0 <= i < reg.len() implies slots_probed(#[trigger] reg[i], probes) by {
            assert forall|sapi: PhpServerSapi| #[trigger] slot(reg[i], sapi).len() > 0 implies probed_in_some(
                probes, slot(reg[i], sapi), reg[i].version, sapi) by {
                lemma_registry_paths_were_probed(probes[d], i, sapi);
            }
        }
    }
    lemma_merge_dirs_probed(Seq::empty(), dirs, probes);
    lemma_merge_dirs_unique(Seq::empty(), dirs);
}

/// Whether some entry of `reg` is of version `v`.
pub open spec fn has_version(reg: Seq<BinaryModel>, v: Seq<char>) -> bool {
    exists|i: int| 0 <= i < reg.len() && reg[i].version == v
}

/// Whether the output `out` of `php --version` follows the grammar and
/// reports version `v` with a known SAPI.
pub open spec fn reports(out: Seq<char>, v: Seq<char>) -> bool {
    match metadata_spec(out) {
        Some((w, s)) => w == v && s != PhpServerSapi::Unknown,
        None => false,
    }
}

/// Whether some probe of `probes` reports version `v` with a known SAPI.
pub open spec fn reports_version(probes: Seq<(Seq<char>, Seq<char>)>, v: Seq<char>) -> bool {
    exists|k: int| 0 <= k < probes.len() && reports(#[trigger] probes[k].1, v)
}

proof fn lemma_has_version_update(reg: Seq<BinaryModel>, i: int, b: BinaryModel, v: Seq<char>)
    requires
        0 <= i < reg.len(),
        b.version == reg[i].version,
    ensures
        has_version(reg.update(i, b), v) == has_version(reg, v),
{
    let r = reg.update(i, b);
    if has_version(reg, v) {
        let j = choose|j: int| 0 <= j < reg.len() && reg[j].version == v;
        assert(r[j].version == v);
    }
    if has_version(r, v) {
        let j = choose|j: int| 0 <= j < r.len() && r[j].version == v;
        assert(reg[j].version == v);
    }
}

proof fn lemma_has_version_push(reg: Seq<BinaryModel>, b: BinaryModel, v: Seq<char>)
    ensures
        has_version(reg.push(b), v) == (has_version(reg, v) || v == b.version),
{
    let r = reg.push(b);
    if has_version(reg, v) {
        let j = choose|j: int| 0 <= j < reg.len() && reg[j].version == v;
        assert(r[j].version == v);
    }
    if v == b.version {
        assert(r[reg.len() as int].version == v);
    }
    if has_version(r, v) {
        let j = choose|j: int| 0 <= j < r.len() && r[j].version == v;
        if j < reg.len() {
            assert(reg[j].version == v);
        }
    }
}

proof fn lemma_reports_last(probes: Seq<(Seq<char>, Seq<char>)>, v: Seq<char>)
    requires
        probes.len() > 0,
    ensures
        reports_version(probes, v) == (reports_version(probes.drop_last(), v) || reports(probes.last().1, v)),
{
    let p = probes.drop_last();
    if reports_version(p, v) {
        let k = choose|k: int| 0 <= k < p.len() && reports(#[trigger] p[k].1, v);
        assert(probes[k] == p[k]);
    }
    if reports(probes.last().1, v) {
        assert(reports(probes[probes.len() - 1].1, v));
    }
    if reports_version(probes, v) {
        let k = choose|k: int| 0 <= k < probes.len() && reports(#[trigger] probes[k].1, v);
        if k < p.len() {
            assert(probes[k] == p[k]);
        }
    }
}

/// The versions of a registry built from probes are exactly the versions
/// that its probes report with a known SAPI.
pub proof fn lemma_registry_versions(probes: Seq<(Seq<char>, Seq<char>)>, v: Seq<char>)
    ensures
        has_version(probes_registry(probes), v) <==> reports_version(probes, v),
    decreases probes.len(),
{
    if probes.len() > 0 {
        let prev = probes_registry(probes.drop_last());
        lemma_registry_versions(probes.drop_last(), v);
        lemma_reports_last(probes, v);
        let path = probes.last().0;
        let out = probes.last().1;
        if let Some((w, s)) = metadata_spec(out) {
            if s != PhpServerSapi::Unknown {
                match first_index(prev, w) {
                    Some(i) => {
                        assert(is_first_index(prev, w, i));
                        if slot(prev[i], s).len() == 0 {
                            lemma_has_version_update(prev, i, with_slot(prev[i], s, path), v);
                        }
                        if v == w {
                            assert(has_version(prev, v));
                        }
                    },
                    None => {
                        lemma_has_version_push(prev, with_slot(empty_binary(w), s, path), v);
                    },
                }
            }
        }
    } else {
        assert(!reports_version(probes, v));
    }
}

proof fn lemma_merge_all_versions(reg: Seq<BinaryModel>, from: Seq<BinaryModel>, v: Seq<char>)
    ensures
        has_version(merge_all(reg, from), v) == (has_version(reg, v) || has_version(from, v)),
    decreases from.len(),
{
    if from.len() > 0 {
        let b = from[0];
        let b2 = BinaryModel { system: reg.len() == 0, ..b };
        let next = merge_step(reg, b);
        match first_index(reg, b.version) {
            Some(i) => {
                assert(is_first_index(reg, b.version, i));
                lemma_has_version_update(reg, i, merged(reg[i], b2), v);
                if v == b.version {
                    assert(has_version(reg, v));
                }
            },
            None => {
                lemma_has_version_push(reg, b2, v);
            },
        }
        lemma_merge_all_versions(next, from.skip(1), v);
        let rest = from.skip(1);
        if has_version(rest, v) {
            let j = choose|j: int| 0 <= j < rest.len() && rest[j].version == v;
            assert(from[j + 1].version == v);
        }
        if v == b.version {
            assert(from[0].version == v);
        }
        if has_version(from, v) {
            let j = choose|j: int| 0 <= j < from.len() && from[j].version == v;
            if j > 0 {
                assert(rest[j - 1].version == v);
            }
        }
    }
}

proof fn lemma_merge_dirs_versions(reg: Seq<BinaryModel>, dirs: Seq<Seq<BinaryModel>>, v: Seq<char>)
    ensures
        has_version(merge_dirs(reg, dirs), v) == (has_version(reg, v) || exists|d: int|
            0 <= d < dirs.len() && has_version(#[trigger] dirs[d], v)),
    decreases dirs.len(),
{
    if dirs.len() > 0 {
        lemma_merge_all_versions(reg, dirs[0], v);
        lemma_merge_dirs_versions(merge_all(reg, dirs[0]), dirs.skip(1), v);
        let rest = dirs.skip(1);
        if exists|d: int| 0 <= d < rest.len() && has_version(#[trigger] rest[d], v) {
            let d = choose|d: int| 0 <= d < rest.len() && has_version(#[trigger] rest[d], v);
            assert(dirs[d + 1] == rest[d]);
        }
        if has_version(dirs[0], v) {
            assert(has_version(dirs[0], v));
        }
        if exists|d: int| 0 <= d < dirs.len() && has_version(#[trigger] dirs[d], v) {
            let d = choose|d: int| 0 <= d < dirs.len() && has_version(#[trigger] dirs[d], v);
            if d > 0 {
                assert(rest[d - 1] == dirs[d]);
            }
        }
    }
}

/// Across all search directories, the versions of the merged registry are
/// exactly those that some directory's probes report with a known SAPI.
pub proof fn lemma_merged_registry_versions(probes: Seq<Seq<(Seq<char>, Seq<char>)>>, v: Seq<char>)
    ensures
        has_version(merge_dirs(Seq::empty(), dir_registries(probes)), v) <==> exists|d: int|
            0 <= d < probes.len() && reports_version(#[trigger] probes[d], v),
{
    let dirs = dir_registries(probes);
    lemma_merge_dirs_versions(Seq::empty(), dirs, v);
    assert(!has_version(Seq::<BinaryModel>::empty(), v));
    assert forall|d: int| 0 <= d < dirs.len() implies has_version(#[trigger] dirs[d], v) == reports_version(
        probes[d],
        v,
    ) by {
        assert(dirs[d] == probes_registry(probes[d]));
        lemma_registry_versions(probes[d], v);
    }
    if exists|d: int| 0 <= d < probes.len() && reports_version(#[trigger] probes[d], v) {
        let d = choose|d: int| 0 <= d < probes.len() && reports_version(#[trigger] probes[d], v);
        assert(has_version(dirs[d], v));
    }
    if exists|d: int| 0 <= d < dirs.len() && has_version(#[trigger] dirs[d], v) {
        let d = choose|d: int| 0 <= d < dirs.len() && has_version(#[trigger] dirs[d], v);
        assert(reports_version(probes[d], v));
    }
}

} // verus!
