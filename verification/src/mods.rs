//! Mod update checking: which mods each server asks for, which versions are
//! installed (read from the names of the mod directories), and how each one
//! stands against the newest file that CurseForge lists for its project.
use vstd::prelude::*;
use crate::parse::parse_i32;
use crate::text::split_on_exec;

verus! {

/// The mods one server is configured with.
#[derive(Debug)]
pub struct ServerModsRecord {
    pub server_id: u128,
    pub installation_dir: String,
    pub mod_ids: Vec<i32>,
}

/// The mods of every server, as handed to the update monitor.
#[derive(Debug)]
pub struct ModUpdateRecords {
    pub servers: Vec<ServerModsRecord>,
}

/// How an installed mod stands against its project on CurseForge.
#[derive(Clone, Copy, Debug, PartialEq, Eq, Structural)]
pub enum ModStatus {
    UpToDate,
    OutOfDate,
    Removed,
}

/// The status of each mod of one server, in the order the mods were asked for.
#[derive(Debug)]
pub struct ServerModsStatus {
    pub server_id: u128,
    pub mod_statuses: Vec<(i32, ModStatus)>,
}

/// The mod statuses of every server that asks for mods.
#[derive(Debug)]
pub struct ServerModsStatuses {
    pub server_statuses: Vec<ServerModsStatus>,
}

/// A mod that a server asks for, with the file (version) found installed;
/// `file_id` is 0 while none was found.
#[derive(Clone, Copy, Debug, PartialEq, Eq, Structural)]
pub struct InstalledMod {
    pub server_id: u128,
    pub project_id: i32,
    pub file_id: i32,
}

/// What CurseForge reports of a project: its id and its newest file.
#[derive(Clone, Copy, Debug, PartialEq, Eq, Structural)]
pub struct ModProject {
    pub id: i32,
    pub main_file_id: i32,
}

/// A server's id with the mods it asks for.
pub open spec fn record_view(r: ServerModsRecord) -> (u128, Seq<i32>) {
    (r.server_id, r.mod_ids@)
}

pub open spec fn records_view(rs: Seq<ServerModsRecord>) -> Seq<(u128, Seq<i32>)> {
    rs.map_values(|r: ServerModsRecord| record_view(r))
}

pub open spec fn dir_lists_view(ds: Seq<Vec<String>>) -> Seq<Seq<Seq<char>>> {
    ds.map_values(|d: Vec<String>| crate::text::texts_view(d@))
}

/// One request per mod id of a server, with no file found yet.
pub open spec fn requests_of(server_id: u128, ids: Seq<i32>) -> Seq<InstalledMod> {
    ids.map_values(|m: i32| InstalledMod { server_id, project_id: m, file_id: 0 })
}

/// The requests of all servers, server by server, each in its mods' order.
pub open spec fn requests_from(recs: Seq<(u128, Seq<i32>)>) -> Seq<InstalledMod>
    decreases recs.len(),
{
    if recs.len() == 0 {
        seq![]
    } else {
        requests_from(recs.drop_last()) + requests_of(recs.last().0, recs.last().1)
    }
}

/// What `str::parse::<i32>` gives, or 0 where it fails.
pub open spec fn parse_or_zero(t: Seq<char>) -> i32 {
    match crate::parse::spec_parse_i32(t) {
        Some(v) => v,
        None => 0,
    }
}

/// The positive numbers among the pieces, in order.
pub open spec fn positive_ids(pieces: Seq<Seq<char>>) -> Seq<i32>
    decreases pieces.len(),
{
    if pieces.len() == 0 {
        seq![]
    } else {
        let p = positive_ids(pieces.drop_last());
        let v = parse_or_zero(pieces.last());
        if v > 0 {
            p.push(v)
        } else {
            p
        }
    }
}

/// A mod directory is named `<project id>_<file id>`: the pieces between
/// underscores that read as positive numbers must be exactly two.
pub open spec fn spec_installed_mod(name: Seq<char>) -> Option<(i32, i32)> {
    let v = positive_ids(crate::text::split_on(name, '_'));
    if v.len() == 2 {
        Some((v[0], v[1]))
    } else {
        None
    }
}

/// The index of the first request of `server_id` for `project_id`, or the
/// length when there is none.
pub open spec fn first_request_index(s: Seq<InstalledMod>, server_id: u128, project_id: i32) -> int
    decreases s.len(),
{
    if s.len() == 0 {
        0
    } else if s[0].server_id == server_id && s[0].project_id == project_id {
        0
    } else {
        1 + first_request_index(s.drop_first(), server_id, project_id)
    }
}

/// What an installed mod directory named `name` of server `server_id` does to
/// the requests: the first matching request takes the installed file id.
pub open spec fn apply_dir(s: Seq<InstalledMod>, server_id: u128, name: Seq<char>) -> Seq<InstalledMod> {
    match spec_installed_mod(name) {
        Some((p, f)) => {
            let k = first_request_index(s, server_id, p);
            if 0 <= k < s.len() {
                s.update(k, InstalledMod { file_id: f, ..s[k] })
            } else {
                s
            }
        },
        None => s,
    }
}

pub open spec fn apply_dirs(s: Seq<InstalledMod>, server_id: u128, names: Seq<Seq<char>>) -> Seq<InstalledMod>
    decreases names.len(),
{
    if names.len() == 0 {
        s
    } else {
        apply_dir(apply_dirs(s, server_id, names.drop_last()), server_id, names.last())
    }
}

/// The directory names read for the `i`th server; none where none were read.
pub open spec fn dirs_at(dirs: Seq<Seq<Seq<char>>>, i: int) -> Seq<Seq<char>> {
    if 0 <= i < dirs.len() {
        dirs[i]
    } else {
        seq![]
    }
}

pub open spec fn apply_servers(
    s: Seq<InstalledMod>,
    recs: Seq<(u128, Seq<i32>)>,
    dirs: Seq<Seq<Seq<char>>>,
    n: nat,
) -> Seq<InstalledMod>
    decreases n,
{
    if n == 0 {
        s
    } else {
        apply_dirs(apply_servers(s, recs, dirs, (n - 1) as nat), recs[n - 1].0, dirs_at(dirs, n - 1))
    }
}

/// Every requested mod with the file found installed for it: the requests of
/// all servers, updated by the mod directories of each server in turn.
pub open spec fn spec_requested_mods(recs: Seq<(u128, Seq<i32>)>, dirs: Seq<Seq<Seq<char>>>) -> Seq<InstalledMod> {
    apply_servers(requests_from(recs), recs, dirs, recs.len())
}

/// The project ids in order of first appearance, each once.
pub open spec fn unique_ids(s: Seq<i32>) -> Seq<i32>
    decreases s.len(),
{
    if s.len() == 0 {
        seq![]
    } else {
        let d = unique_ids(s.drop_last());
        if d.contains(s.last()) {
            d
        } else {
            d.push(s.last())
        }
    }
}

/// The unique ids hold each id of the input, and each only once.
pub proof fn lemma_unique_ids(s: Seq<i32>)
    ensures
        forall|x: i32| unique_ids(s).contains(x) <==> s.contains(x),
        forall|i: int, j: int| 0 <= i < j < unique_ids(s).len() ==> unique_ids(s)[i] != unique_ids(s)[j],
    decreases s.len(),
{
    if s.len() > 0 {
        let p = s.drop_last();
        lemma_unique_ids(p);
        assert forall|x: i32| s.contains(x) <==> (p.contains(x) || x == s.last()) by {
            if s.contains(x) {
                let i = choose|i: int| 0 <= i < s.len() && s[i] == x;
                if i < p.len() {
                    assert(p[i] == x);
                }
            }
            if p.contains(x) {
                let i = choose|i: int| 0 <= i < p.len() && p[i] == x;
                assert(s[i] == x);
            }
            if x == s.last() {
                assert(s[s.len() - 1] == x);
            }
        }
        let d = unique_ids(p);
        if !d.contains(s.last()) {
            assert forall|x: i32| d.push(s.last()).contains(x) <==> (d.contains(x) || x == s.last()) by {
                if d.push(s.last()).contains(x) {
                    let i = choose|i: int| 0 <= i < d.len() + 1 && d.push(s.last())[i] == x;
                    if i < d.len() {
                        assert(d[i] == x);
                    }
                }
                if d.contains(x) {
                    let i = choose|i: int| 0 <= i < d.len() && d[i] == x;
                    assert(d.push(s.last())[i] == x);
                }
                if x == s.last() {
                    assert(d.push(s.last())[d.len() as int] == x);
                }
            }
            assert forall|i: int, j: int| 0 <= i < j < d.len() + 1 implies d.push(s.last())[i] != d.push(
                s.last(),
            )[j] by {
                if j == d.len() {
                    assert(d.push(s.last())[i] == d[i]);
                    if d[i] == s.last() {
                        assert(d.contains(s.last()));
                    }
                }
            }
        }
    }
}

pub open spec fn project_ids(s: Seq<InstalledMod>) -> Seq<i32> {
    s.map_values(|m: InstalledMod| m.project_id)
}

/// The index of the first project with id `id`, or the length when none.
pub open spec fn first_project_index(ps: Seq<ModProject>, id: i32) -> int
    decreases ps.len(),
{
    if ps.len() == 0 {
        0
    } else if ps[0].id == id {
        0
    } else {
        1 + first_project_index(ps.drop_first(), id)
    }
}

/// A mod whose project is gone is removed; one whose project has a newer
/// file than the installed one is out of date; else it is up to date.
pub open spec fn status_of(m: InstalledMod, ps: Seq<ModProject>) -> ModStatus {
    let k = first_project_index(ps, m.project_id);
    if 0 <= k < ps.len() {
        if ps[k].main_file_id > m.file_id {
            ModStatus::OutOfDate
        } else {
            ModStatus::UpToDate
        }
    } else {
        ModStatus::Removed
    }
}

pub open spec fn first_group_index(g: Seq<(u128, Seq<(i32, ModStatus)>)>, server_id: u128) -> int
    decreases g.len(),
{
    if g.len() == 0 {
        0
    } else if g[0].0 == server_id {
        0
    } else {
        1 + first_group_index(g.drop_first(), server_id)
    }
}

/// The statuses grouped by server, servers in order of their first request,
/// each server's statuses in the order of its requests.
pub open spec fn group_statuses(s: Seq<InstalledMod>, ps: Seq<ModProject>) -> Seq<(u128, Seq<(i32, ModStatus)>)>
    decreases s.len(),
{
    if s.len() == 0 {
        seq![]
    } else {
        let g = group_statuses(s.drop_last(), ps);
        let m = s.last();
        let st = (m.project_id, status_of(m, ps));
        let k = first_group_index(g, m.server_id);
        if 0 <= k < g.len() {
            g.update(k, (g[k].0, g[k].1.push(st)))
        } else {
            g.push((m.server_id, seq![st]))
        }
    }
}

/// The number of statuses over all groups.
pub open spec fn total_statuses(g: Seq<(u128, Seq<(i32, ModStatus)>)>) -> nat
    decreases g.len(),
{
    if g.len() == 0 {
        0
    } else {
        total_statuses(g.drop_last()) + g.last().1.len()
    }
}

proof fn lemma_first_group_index(g: Seq<(u128, Seq<(i32, ModStatus)>)>, server_id: u128)
    ensures
        0 <= first_group_index(g, server_id) <= g.len(),
        first_group_index(g, server_id) < g.len() ==> g[first_group_index(g, server_id)].0 == server_id,
        first_group_index(g, server_id) == g.len() ==> forall|i: int| 0 <= i < g.len() ==> g[i].0 != server_id,
    decreases g.len(),
{
    if g.len() > 0 && g[0].0 != server_id {
        lemma_first_group_index(g.drop_first(), server_id);
        assert forall|i: int| 0 < i < g.len() implies g[i] == g.drop_first()[i - 1] by {}
    }
}

proof fn lemma_total_statuses_update(g: Seq<(u128, Seq<(i32, ModStatus)>)>, k: int, st: (i32, ModStatus))
    requires
        0 <= k < g.len(),
    ensures
        total_statuses(g.update(k, (g[k].0, g[k].1.push(st)))) == total_statuses(g) + 1,
    decreases g.len(),
{
    let h = g.update(k, (g[k].0, g[k].1.push(st)));
    if k == g.len() - 1 {
        assert(h.drop_last() =~= g.drop_last());
    } else {
        lemma_total_statuses_update(g.drop_last(), k, st);
        assert(h.drop_last() =~= g.drop_last().update(k, (g[k].0, g[k].1.push(st))));
    }
}

/// Every requested mod gets exactly one status, and each server that asks
/// for mods has exactly one group of statuses.
pub proof fn lemma_group_statuses(s: Seq<InstalledMod>, ps: Seq<ModProject>)
    ensures
        total_statuses(group_statuses(s, ps)) == s.len(),
        forall|i: int, j: int|
            0 <= i < j < group_statuses(s, ps).len() ==> group_statuses(s, ps)[i].0 != group_statuses(s, ps)[j].0,
        forall|i: int| 0 <= i < s.len() ==> exists|j: int|
            0 <= j < group_statuses(s, ps).len() && group_statuses(s, ps)[j].0 == #[trigger] s[i].server_id,
    decreases s.len(),
{
    if s.len() > 0 {
        let p = s.drop_last();
        lemma_group_statuses(p, ps);
        let g = group_statuses(p, ps);
        let m = s.last();
        let st = (m.project_id, status_of(m, ps));
        lemma_first_group_index(g, m.server_id);
        let k = first_group_index(g, m.server_id);
        let h = group_statuses(s, ps);
        if k < g.len() {
            lemma_total_statuses_update(g, k, st);
            assert forall|i: int| 0 <= i < s.len() implies exists|j: int|
                0 <= j < h.len() && h[j].0 == #[trigger] s[i].server_id by {
                if i < p.len() {
                    assert(p[i] == s[i]);
                    let j = choose|j: int| 0 <= j < g.len() && g[j].0 == #[trigger] p[i].server_id;
                    assert(h[j].0 == g[j].0);
                } else {
                    assert(h[k].0 == s[i].server_id);
                }
            }
        } else {
            assert(h.drop_last() =~= g);
            assert forall|i: int| 0 <= i < s.len() implies exists|j: int|
                0 <= j < h.len() && h[j].0 == #[trigger] s[i].server_id by {
                if i < p.len() {
                    assert(p[i] == s[i]);
                    let j = choose|j: int| 0 <= j < g.len() && g[j].0 == #[trigger] p[i].server_id;
                    assert(h[j].0 == g[j].0);
                } else {
                    assert(h[g.len() as int].0 == s[i].server_id);
                }
            }
        }
    }
}

pub open spec fn status_view(s: ServerModsStatus) -> (u128, Seq<(i32, ModStatus)>) {
    (s.server_id, s.mod_statuses@)
}

pub open spec fn statuses_view(s: Seq<ServerModsStatus>) -> Seq<(u128, Seq<(i32, ModStatus)>)> {
    s.map_values(|x: ServerModsStatus| status_view(x))
}

/// Reads a mod directory name `<project id>_<file id>` into the two ids.
pub fn parse_installed_mod_dir(name: &str) -> (r: Option<(i32, i32)>)
    ensures
        r == spec_installed_mod(name@),
{
    let pieces = split_on_exec(name, '_');
    let ghost pv = crate::text::texts_view(pieces@);
    let mut vals: Vec<i32> = Vec::new();
    let mut i: usize = 0;
    while i < pieces.len()
        invariant
            i <= pieces@.len(),
            pv == crate::text::texts_view(pieces@),
            pv == crate::text::split_on(name@, '_'),
            vals@ == positive_ids(pv.take(i as int)),
        decreases pieces@.len() - i,
    {
        assert(pv.take(i + 1).drop_last() =~= pv.take(i as int));
        assert(pv.take(i + 1).last() == pieces@[i as int]@);
        let v: i32 = match parse_i32(pieces[i].as_str()) {
            Some(v) => v,
            None => 0,
        };
        if v > 0 {
            vals.push(v);
        }
        i = i + 1;
    }
    assert(pv.take(pieces@.len() as int) =~= pv);
    if vals.len() == 2 {
        Some((vals[0], vals[1]))
    } else {
        None
    }
}

/// Records the installed mod directory `name` of server `server_id`: the
/// first request of that server for the directory's project takes its file id.
pub fn record_installed_mod(requested: &mut Vec<InstalledMod>, server_id: u128, name: &str)
    ensures
        final(requested)@ == apply_dir(old(requested)@, server_id, name@),
{
    match parse_installed_mod_dir(name) {
        None => {},
        Some((p, f)) => {
            let ghost s = requested@;
            assert(s.skip(0) =~= s);
            let mut i: usize = 0;
            while i < requested.len()
                invariant
                    i <= s.len(),
                    s == requested@,
                    s == old(requested)@,
                    spec_installed_mod(name@) == Some((p, f)),
                    first_request_index(s, server_id, p) == i + first_request_index(s.skip(i as int), server_id, p),
                decreases s.len() - i,
            {
                let m = requested[i];
                assert(s.skip(i as int)[0] == m);
                if m.server_id == server_id && m.project_id == p {
                    let updated = InstalledMod { server_id: m.server_id, project_id: m.project_id, file_id: f };
                    requested.set(i, updated);
                    assert(first_request_index(s, server_id, p) == i);
                    assert(updated == InstalledMod { file_id: f, ..s[i as int] });
                    assert(requested@ == s.update(i as int, InstalledMod { file_id: f, ..s[i as int] }));
                    assert(spec_installed_mod(name@) == Some((p, f)));
                    assert(requested@ == apply_dir(s, server_id, name@));
                    return;
                }
                assert(s.skip(i as int).drop_first() =~= s.skip(i + 1));
                i = i + 1;
            }
            assert(s.skip(s.len() as int) =~= Seq::<InstalledMod>::empty());
        },
    }
}

/// Every mod the servers ask for, with the file found installed for it.
/// `installed_dirs[i]` holds the names of the mod directories found for the
/// `i`th server (none where the directory could not be read).
pub fn requested_mods(records: &ModUpdateRecords, installed_dirs: &Vec<Vec<String>>) -> (r: Vec<InstalledMod>)
    ensures
        r@ == spec_requested_mods(records_view(records.servers@), dir_lists_view(installed_dirs@)),
{
    let ghost recs = records_view(records.servers@);
    let ghost dirs = dir_lists_view(installed_dirs@);
    let mut out: Vec<InstalledMod> = Vec::new();
    let mut i: usize = 0;
    while i < records.servers.len()
        invariant
            i <= records.servers@.len(),
            recs == records_view(records.servers@),
            out@ == requests_from(recs.take(i as int)),
        decreases records.servers@.len() - i,
    {
        let rec = &records.servers[i];
        let ghost before = out@;
        let mut j: usize = 0;
        while j < rec.mod_ids.len()
            invariant
                j <= rec.mod_ids@.len(),
                out@ == before + requests_of(rec.server_id, rec.mod_ids@.take(j as int)),
            decreases rec.mod_ids@.len() - j,
        {
            out.push(InstalledMod { server_id: rec.server_id, project_id: rec.mod_ids[j], file_id: 0 });
            assert(requests_of(rec.server_id, rec.mod_ids@.take(j + 1)) =~= requests_of(
                rec.server_id,
                rec.mod_ids@.take(j as int),
            ).push(InstalledMod { server_id: rec.server_id, project_id: rec.mod_ids@[j as int], file_id: 0 }));
            j = j + 1;
        }
        assert(rec.mod_ids@.take(rec.mod_ids@.len() as int) =~= rec.mod_ids@);
        assert(recs.take(i + 1).drop_last() =~= recs.take(i as int));
        assert(recs.take(i + 1).last() == record_view(*rec));
        i = i + 1;
    }
    assert(recs.take(recs.len() as int) =~= recs);
    let ghost base = out@;
    let mut i: usize = 0;
    while i < records.servers.len()
        invariant
            i <= records.servers@.len(),
            recs == records_view(records.servers@),
            dirs == dir_lists_view(installed_dirs@),
            out@ == apply_servers(base, recs, dirs, i as nat),
        decreases records.servers@.len() - i,
    {
        let server_id = records.servers[i].server_id;
        assert(recs[i as int].0 == server_id);
        let ghost start = out@;
        if i < installed_dirs.len() {
            let names = &installed_dirs[i];
            let ghost nv = crate::text::texts_view(names@);
            assert(dirs_at(dirs, i as int) == nv);
            let mut j: usize = 0;
            while j < names.len()
                invariant
                    j <= names@.len(),
                    nv == crate::text::texts_view(names@),
                    out@ == apply_dirs(start, server_id, nv.take(j as int)),
                decreases names@.len() - j,
            {
                assert(nv.take(j + 1).drop_last() =~= nv.take(j as int));
                assert(nv.take(j + 1).last() == names@[j as int]@);
                record_installed_mod(&mut out, server_id, names[j].as_str());
                j = j + 1;
            }
            assert(nv.take(names@.len() as int) =~= nv);
        } else {
            assert(dirs_at(dirs, i as int) == Seq::<Seq<char>>::empty());
        }
        i = i + 1;
    }
    out
}

/// The project ids of the requests, each once, in order of first appearance.
pub fn unique_project_ids(requested: &Vec<InstalledMod>) -> (r: Vec<i32>)
    ensures
        r@ == unique_ids(project_ids(requested@)),
{
    let ghost ids = project_ids(requested@);
    let mut out: Vec<i32> = Vec::new();
    let mut i: usize = 0;
    while i < requested.len()
        invariant
            i <= requested@.len(),
            ids == project_ids(requested@),
            out@ == unique_ids(ids.take(i as int)),
        decreases requested@.len() - i,
    {
        let id = requested[i].project_id;
        assert(ids.take(i + 1).drop_last() =~= ids.take(i as int));
        assert(ids.take(i + 1).last() == id);
        let mut seen = false;
        let mut j: usize = 0;
        while j < out.len()
            invariant
                j <= out@.len(),
                seen == exists|t: int| 0 <= t < j && out@[t] == id,
            decreases out@.len() - j,
        {
            if out[j] == id {
                seen = true;
            }
            j = j + 1;
        }
        assert(seen == out@.contains(id));
        if !seen {
            out.push(id);
        }
        i = i + 1;
    }
    assert(ids.take(requested@.len() as int) =~= ids);
    out
}

/// How the request `m` stands against the projects CurseForge returned.
pub fn mod_status(m: &InstalledMod, projects: &Vec<ModProject>) -> (r: ModStatus)
    ensures
        r == status_of(*m, projects@),
{
    let ghost ps = projects@;
    assert(ps.skip(0) =~= ps);
    let mut i: usize = 0;
    while i < projects.len()
        invariant
            i <= ps.len(),
            ps == projects@,
            first_project_index(ps, m.project_id) == i + first_project_index(ps.skip(i as int), m.project_id),
        decreases ps.len() - i,
    {
        let p = projects[i];
        assert(ps.skip(i as int)[0] == p);
        if p.id == m.project_id {
            if p.main_file_id > m.file_id {
                return ModStatus::OutOfDate;
            } else {
                return ModStatus::UpToDate;
            }
        }
        assert(ps.skip(i as int).drop_first() =~= ps.skip(i + 1));
        i = i + 1;
    }
    assert(ps.skip(ps.len() as int) =~= Seq::<ModProject>::empty());
    ModStatus::Removed
}

/// The status of every request, grouped by server.
pub fn mod_statuses(requested: &Vec<InstalledMod>, projects: &Vec<ModProject>) -> (r: ServerModsStatuses)
    ensures
        statuses_view(r.server_statuses@) == group_statuses(requested@, projects@),
{
    let mut groups: Vec<ServerModsStatus> = Vec::new();
    let mut i: usize = 0;
    while i < requested.len()
        invariant
            i <= requested@.len(),
            statuses_view(groups@) == group_statuses(requested@.take(i as int), projects@),
        decreases requested@.len() - i,
    {
        let m = requested[i];
        let st = (m.project_id, mod_status(&m, projects));
        assert(requested@.take(i + 1).drop_last() =~= requested@.take(i as int));
        assert(requested@.take(i + 1).last() == m);
        let ghost g = statuses_view(groups@);
        assert(g.skip(0) =~= g);
        let mut k: usize = 0;
        let mut found = false;
        while k < groups.len() && !found
            invariant
                k <= g.len(),
                g == statuses_view(groups@),
                found ==> k < g.len() && first_group_index(g, m.server_id) == k,
                !found ==> first_group_index(g, m.server_id) == k + first_group_index(g.skip(k as int), m.server_id),
            decreases g.len() - k, if found { 0int } else { 1int },
        {
            assert(g.skip(k as int)[0] == status_view(groups@[k as int]));
            if groups[k].server_id == m.server_id {
                found = true;
            } else {
                assert(g.skip(k as int).drop_first() =~= g.skip(k + 1));
                k = k + 1;
            }
        }
        if found {
            let mut group = groups.remove(k);
            group.mod_statuses.push(st);
            groups.insert(k, group);
            assert(statuses_view(groups@) =~= g.update(k as int, (g[k as int].0, g[k as int].1.push(st))));
        } else {
            assert(g.skip(g.len() as int) =~= Seq::<(u128, Seq<(i32, ModStatus)>)>::empty());
            let mut v: Vec<(i32, ModStatus)> = Vec::new();
            v.push(st);
            groups.push(ServerModsStatus { server_id: m.server_id, mod_statuses: v });
            assert(statuses_view(groups@) =~= g.push((m.server_id, seq![st])));
        }
        i = i + 1;
    }
    assert(requested@.take(requested@.len() as int) =~= requested@);
    ServerModsStatuses { server_statuses: groups }
}

/// The number of mods with the status `status` among `statuses`.
pub open spec fn count_status(statuses: Seq<(i32, ModStatus)>, status: ModStatus) -> nat
    decreases statuses.len(),
{
    if statuses.len() == 0 {
        0
    } else {
        count_status(statuses.drop_last(), status) + if statuses.last().1 == status { 1nat } else { 0nat }
    }
}

proof fn lemma_count_status_bound(statuses: Seq<(i32, ModStatus)>, status: ModStatus)
    ensures
        count_status(statuses, status) <= statuses.len(),
    decreases statuses.len(),
{
    if statuses.len() > 0 {
        lemma_count_status_bound(statuses.drop_last(), status);
    }
}

/// The summary of a server's mods: up to date when none is out of date or
/// retired; else how many are retired and how many out of date.
pub open spec fn spec_mods_message(out_of_date: nat, retired: nat) -> Seq<char> {
    if out_of_date == 0 && retired == 0 {
        "Up-to-date"@
    } else if out_of_date == 0 {
        crate::text::nat_text(retired) + " retired"@
    } else if retired == 0 {
        crate::text::nat_text(out_of_date) + " out-of-date"@
    } else {
        crate::text::nat_text(retired) + " retired, "@ + crate::text::nat_text(out_of_date) + " out-of-date"@
    }
}

/// The numbers of out-of-date and of retired mods among `statuses`.
pub fn mod_update_counts(statuses: &Vec<(i32, ModStatus)>) -> (r: (usize, usize))
    ensures
        r.0 == count_status(statuses@, ModStatus::OutOfDate),
        r.1 == count_status(statuses@, ModStatus::Removed),
{
    let mut updated: usize = 0;
    let mut removed: usize = 0;
    let mut i: usize = 0;
    while i < statuses.len()
        invariant
            i <= statuses@.len(),
            updated == count_status(statuses@.take(i as int), ModStatus::OutOfDate),
            removed == count_status(statuses@.take(i as int), ModStatus::Removed),
        decreases statuses@.len() - i,
    {
        proof {
            assert(statuses@.take(i + 1).drop_last() =~= statuses@.take(i as int));
            lemma_count_status_bound(statuses@.take(i as int), ModStatus::OutOfDate);
            lemma_count_status_bound(statuses@.take(i as int), ModStatus::Removed);
        }
        match statuses[i].1 {
            ModStatus::OutOfDate => {
                updated = updated + 1;
            },
            ModStatus::Removed => {
                removed = removed + 1;
            },
            ModStatus::UpToDate => {},
        }
        i = i + 1;
    }
    assert(statuses@.take(statuses@.len() as int) =~= statuses@);
    (updated, removed)
}

/// The summary of a server's mods shown on its card (`spec_mods_message`).
pub fn mods_update_message(statuses: &Vec<(i32, ModStatus)>) -> (r: String)
    ensures
        r@ == spec_mods_message(
            count_status(statuses@, ModStatus::OutOfDate),
            count_status(statuses@, ModStatus::Removed),
        ),
{
    let (updated, removed) = mod_update_counts(statuses);
    if updated == 0 && removed == 0 {
        crate::text::owned("Up-to-date")
    } else if updated == 0 {
        let n = crate::text::u64_to_string(removed as u64);
        crate::text::concat(n.as_str(), " retired")
    } else if removed == 0 {
        let n = crate::text::u64_to_string(updated as u64);
        crate::text::concat(n.as_str(), " out-of-date")
    } else {
        let r = crate::text::u64_to_string(removed as u64);
        let u = crate::text::u64_to_string(updated as u64);
        let head = crate::text::concat(r.as_str(), " retired, ");
        let with_count = crate::text::concat(head.as_str(), u.as_str());
        crate::text::concat(with_count.as_str(), " out-of-date")
    }
}

/// The state of a server's build shown on its card: unavailable for a
/// server that is not installed (`None`); an update is available when its
/// build was updated before the newest build on Steam; else up to date.
pub fn server_update_message(time_updated: Option<u64>, latest_time_updated: u64) -> (r: &'static str)
    ensures
        r@ == match time_updated {
            Some(t) => if t < latest_time_updated { "Update Available"@ } else { "Up-to-date"@ },
            None => "Unavailable"@,
        },
{
    match time_updated {
        Some(t) => if t < latest_time_updated {
            "Update Available"
        } else {
            "Up-to-date"
        },
        None => "Unavailable",
    }
}

} // verus!
