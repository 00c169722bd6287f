use vstd::prelude::*;
use vstd::string::StringExecFns;
use crate::model::{BereshitProject, ProjectModel, models};
use crate::codec::{projects_of_text, projects_json, encode_projects, decode_projects};
use crate::json::pretty_text;

verus! {

/// Why a registry operation failed.
#[derive(Debug, PartialEq, Eq)]
pub enum RegistryError {
    /// The stored text is not a list of well-formed project records; the
    /// text says what was wrong.
    ParseError(String),
    /// The records could not be written out as text.
    SerializeError,
    /// No record has the requested id.
    NotFoundError,
    /// The system clock could not give the current time.
    ClockError,
}

/// The message shown to the user for an error.
pub open spec fn error_message(e: RegistryError) -> Seq<char> {
    match e {
        RegistryError::ParseError(d) => "Failed to parse projects file: "@ + d@,
        RegistryError::SerializeError => "Failed to serialize projects"@,
        RegistryError::NotFoundError => "Project not found"@,
        RegistryError::ClockError => "Failed to read the system clock"@,
    }
}

impl RegistryError {
    /// The message shown to the user for this error.
    pub fn message(&self) -> (r: String)
        ensures
            r@ == error_message(*self),
    {
        match self {
            RegistryError::ParseError(d) => "Failed to parse projects file: ".to_string().concat(
                d.as_str(),
            ),
            RegistryError::SerializeError => "Failed to serialize projects".to_string(),
            RegistryError::NotFoundError => "Project not found".to_string(),
            RegistryError::ClockError => "Failed to read the system clock".to_string(),
        }
    }
}

/// Some record of `s` has the id.
pub open spec fn has_id(s: Seq<ProjectModel>, id: Seq<char>) -> bool {
    exists|i: int| 0 <= i < s.len() && (#[trigger] s[i]).id == id
}

/// `i` is the first position of `s` whose record has the id.
pub open spec fn first_with_id(s: Seq<ProjectModel>, id: Seq<char>, i: int) -> bool {
    &&& 0 <= i < s.len()
    &&& s[i].id == id
    &&& forall|j: int| 0 <= j < i ==> (#[trigger] s[j]).id != id
}

/// The first position of `s` whose record has the id (meaningful when `has_id`).
pub open spec fn id_position(s: Seq<ProjectModel>, id: Seq<char>) -> int {
    choose|i: int| first_with_id(s, id, i)
}

/// No two records share an id: the registry's invariant.
pub open spec fn unique_ids(s: Seq<ProjectModel>) -> bool {
    forall|i: int, j: int|
        0 <= i < s.len() && 0 <= j < s.len() && (#[trigger] s[i]).id == (#[trigger] s[j]).id
            ==> i == j
}

/// The registry after storing `p`: a record with the same id is replaced in
/// place, otherwise `p` is appended.
pub open spec fn upserted(s: Seq<ProjectModel>, p: ProjectModel) -> Seq<ProjectModel> {
    if has_id(s, p.id) {
        s.update(id_position(s, p.id), p)
    } else {
        s.push(p)
    }
}

/// The registry after dropping the record with the id; the rest keep their order.
pub open spec fn removed(s: Seq<ProjectModel>, id: Seq<char>) -> Seq<ProjectModel> {
    s.remove(id_position(s, id))
}

/// The records listed for the registry file's contents: none when there is
/// no file or the file is empty.
pub open spec fn listed(contents: Option<Seq<char>>) -> Option<Seq<ProjectModel>> {
    match contents {
        None => Some(Seq::empty()),
        Some(t) => if t.len() == 0 {
            Some(Seq::empty())
        } else {
            projects_of_text(t)
        },
    }
}

/// The position of the first record with the id, if any.
pub fn position_of(ps: &Vec<BereshitProject>, id: &String) -> (r: Option<usize>)
    ensures
        match r {
            Some(i) => first_with_id(models(ps@), id@, i as int),
            None => !has_id(models(ps@), id@),
        },
{
    let ghost s = models(ps@);
    let mut i: usize = 0;
    while i < ps.len()
        invariant
            i <= ps.len(),
            s == models(ps@),
            forall|j: int| 0 <= j < i ==> (#[trigger] s[j]).id != id@,
        decreases ps.len() - i,
    {
        if ps[i].id == *id {
            return Some(i);
        }
        i = i + 1;
    }
    None
}

/// Stores a record: replaces the record with the same id in place, or
/// appends it when there is none.
pub fn upsert_project(ps: &mut Vec<BereshitProject>, p: BereshitProject)
    ensures
        models(final(ps)@) == upserted(models(old(ps)@), p@),
{
    let ghost s = models(ps@);
    match position_of(ps, &p.id) {
        Some(i) => {
            proof {
                assert(first_with_id(s, p@.id, id_position(s, p@.id)));
                assert(id_position(s, p@.id) == i as int) by {
                    let k = id_position(s, p@.id);
                    if k < i as int {
                        assert(s[k].id != p@.id);
                    } else if k > i as int {
                        assert(s[i as int].id != p@.id);
                    }
                }
            }
            ps.set(i, p);
            proof {
                assert(models(ps@) =~= s.update(i as int, p@));
            }
        },
        None => {
            ps.push(p);
            proof {
                assert(models(ps@) =~= s.push(p@));
            }
        },
    }
}

/// Drops the record with the id, keeping the others in order. Fails with
/// `NotFoundError`, and changes nothing, when no record has the id.
pub fn remove_project(ps: &mut Vec<BereshitProject>, id: &String) -> (r: Result<(), RegistryError>)
    ensures
        has_id(models(old(ps)@), id@) <==> r is Ok,
        r is Ok ==> models(final(ps)@) == removed(models(old(ps)@), id@),
        r is Err ==> r == Err::<(), RegistryError>(RegistryError::NotFoundError) && final(ps)@ == old(ps)@,
{
    let ghost s = models(ps@);
    match position_of(ps, id) {
        Some(i) => {
            proof {
                assert(first_with_id(s, id@, id_position(s, id@)));
                assert(id_position(s, id@) == i as int) by {
                    let k = id_position(s, id@);
                    if k < i as int {
                        assert(s[k].id != id@);
                    } else if k > i as int {
                        assert(s[i as int].id != id@);
                    }
                }
            }
            ps.remove(i);
            proof {
                assert(models(ps@) =~= s.remove(i as int));
            }
            Ok(())
        },
        None => Err(RegistryError::NotFoundError),
    }
}

/// The records of the registry file, given its contents or `None` when the
/// file does not exist: an absent or empty file is an empty registry.
pub fn list_projects(contents: Option<&str>) -> (r: Result<Vec<BereshitProject>, RegistryError>)
    ensures
        match r {
            Ok(ps) => listed(opt_str_view(contents)) == Some(models(ps@)),
            Err(e) => e is ParseError && listed(opt_str_view(contents)) is None,
        },
        contents is None ==> r is Ok && r->Ok_0@.len() == 0,
{
    let empty = match contents {
        None => true,
        Some(t) => t.is_empty(),
    };
    if empty {
        let v: Vec<BereshitProject> = Vec::new();
        proof {
            assert(models(v@) =~= Seq::<ProjectModel>::empty());
        }
        Ok(v)
    } else {
        match contents {
            Some(t) => decode_projects(t),
            None => Ok(Vec::new()),
        }
    }
}

/// The view of an optional text.
pub open spec fn opt_str_view(o: Option<&str>) -> Option<Seq<char>> {
    match o {
        Some(t) => Some(t@),
        None => None,
    }
}

/// The new registry text after storing a record, given the current contents
/// (`None` for no file). It fails only where the contents do not list.
pub fn upsert_in_text(contents: Option<&str>, p: BereshitProject) -> (r: Result<String, RegistryError>)
    ensures
        match listed(opt_str_view(contents)) {
            None => r is Err && r->Err_0 is ParseError,
            Some(s) => r is Ok && r->Ok_0@ == pretty_text(projects_json(upserted(s, p@)))
                && listed(Some(r->Ok_0@)) == Some(upserted(s, p@)),
        },
{
    let mut ps = list_projects(contents)?;
    upsert_project(&mut ps, p);
    let t = encode_projects(&ps)?;
    proof {
        lemma_written_text_lists(t@, models(ps@));
    }
    Ok(t)
}

/// The new registry text after removing the record with the id, given the
/// current contents (`None` for no file). It succeeds exactly when some
/// record has the id; otherwise it fails with `NotFoundError`, and the file
/// is to be left as it is.
pub fn remove_in_text(contents: Option<&str>, id: &String) -> (r: Result<String, RegistryError>)
    ensures
        match listed(opt_str_view(contents)) {
            None => r is Err && r->Err_0 is ParseError,
            Some(s) => if has_id(s, id@) {
                r is Ok && r->Ok_0@ == pretty_text(projects_json(removed(s, id@)))
                    && listed(Some(r->Ok_0@)) == Some(removed(s, id@))
            } else {
                r == Err::<String, RegistryError>(RegistryError::NotFoundError)
            },
        },
{
    let mut ps = list_projects(contents)?;
    remove_project(&mut ps, id)?;
    let t = encode_projects(&ps)?;
    proof {
        lemma_written_text_lists(t@, models(ps@));
    }
    Ok(t)
}

/// Written registry text, which is never empty, lists the records it was
/// written from.
proof fn lemma_written_text_lists(t: Seq<char>, s: Seq<ProjectModel>)
    requires
        t.len() > 0,
        projects_of_text(t) == Some(s),
    ensures
        listed(Some(t)) == Some(s),
{
}

/// The registry after storing each record of `ps` in turn.
pub open spec fn upsert_all(s: Seq<ProjectModel>, ps: Seq<ProjectModel>) -> Seq<ProjectModel>
    decreases ps.len(),
{
    if ps.len() == 0 {
        s
    } else {
        upserted(upsert_all(s, ps.drop_last()), ps.last())
    }
}

proof fn lemma_first_exists(s: Seq<ProjectModel>, id: Seq<char>, w: int)
    requires
        0 <= w < s.len(),
        s[w].id == id,
    ensures
        exists|i: int| first_with_id(s, id, i),
    decreases w,
{
    if forall|j: int| 0 <= j < w ==> (#[trigger] s[j]).id != id {
        assert(first_with_id(s, id, w));
    } else {
        let j = choose|j: int| 0 <= j < w && (#[trigger] s[j]).id == id;
        lemma_first_exists(s, id, j);
    }
}

/// Where the id occurs, `id_position` names its first position.
pub proof fn lemma_id_position(s: Seq<ProjectModel>, id: Seq<char>)
    requires
        has_id(s, id),
    ensures
        first_with_id(s, id, id_position(s, id)),
{
    let w = choose|i: int| 0 <= i < s.len() && (#[trigger] s[i]).id == id;
    lemma_first_exists(s, id, w);
}

/// Storing a record keeps ids unique; the record then stands at the place of
/// the record with its id, or at the end when there was none, and every
/// other record stays where it was.
pub proof fn lemma_upsert_in_place(s: Seq<ProjectModel>, p: ProjectModel)
    requires
        unique_ids(s),
    ensures
        unique_ids(upserted(s, p)),
        has_id(upserted(s, p), p.id),
        has_id(s, p.id) ==> {
            &&& upserted(s, p).len() == s.len()
            &&& s[id_position(s, p.id)].id == p.id
            &&& upserted(s, p)[id_position(s, p.id)] == p
            &&& forall|i: int|
                0 <= i < s.len() && i != id_position(s, p.id) ==> upserted(s, p)[i] == s[i]
        },
        !has_id(s, p.id) ==> upserted(s, p) == s.push(p),
{
    let r = upserted(s, p);
    if has_id(s, p.id) {
        lemma_id_position(s, p.id);
        let k = id_position(s, p.id);
        assert(r[k].id == p.id);
        assert forall|i: int, j: int|
            0 <= i < r.len() && 0 <= j < r.len() && (#[trigger] r[i]).id == (#[trigger] r[j]).id
                implies i == j by {
            if i != k && j != k {
                assert(s[i].id == s[j].id);
            } else if i == k && j != k {
                assert(s[j].id == s[k].id);
            } else if j == k && i != k {
                assert(s[i].id == s[k].id);
            }
        }
    } else {
        let n = s.len() as int;
        assert(r[n].id == p.id);
        assert forall|i: int, j: int|
            0 <= i < r.len() && 0 <= j < r.len() && (#[trigger] r[i]).id == (#[trigger] r[j]).id
                implies i == j by {
            if i < n && j < n {
                assert(s[i].id == s[j].id);
            } else if i < n {
                assert(s[i].id == p.id);
            } else if j < n {
                assert(s[j].id == p.id);
            }
        }
    }
}

/// Storing records with distinct ids into an empty registry lists exactly
/// those records, in the order they were stored.
pub proof fn lemma_upsert_distinct_in_order(ps: Seq<ProjectModel>)
    requires
        unique_ids(ps),
    ensures
        upsert_all(Seq::empty(), ps) == ps,
    decreases ps.len(),
{
    if ps.len() > 0 {
        let init = ps.drop_last();
        assert(unique_ids(init)) by {
            assert forall|i: int, j: int|
                0 <= i < init.len() && 0 <= j < init.len() && (#[trigger] init[i]).id == (
                #[trigger] init[j]).id implies i == j by {
                assert(ps[i].id == ps[j].id);
            }
        }
        lemma_upsert_distinct_in_order(init);
        let n = init.len() as int;
        assert(!has_id(init, ps.last().id)) by {
            if has_id(init, ps.last().id) {
                let w = choose|i: int| 0 <= i < init.len() && (#[trigger] init[i]).id == ps.last().id;
                assert(ps[w].id == ps[n].id);
            }
        }
        assert(init.push(ps.last()) =~= ps);
    }
}

/// Storing two records with one id, one after the other, leaves exactly one
/// record with that id: the second.
pub proof fn lemma_upsert_twice_one_record(s: Seq<ProjectModel>, p: ProjectModel, q: ProjectModel)
    requires
        unique_ids(s),
        p.id == q.id,
    ensures
        ({
            let r = upserted(upserted(s, p), q);
            exists|i: int|
                0 <= i < r.len() && r[i] == q && forall|j: int|
                    0 <= j < r.len() && j != i ==> (#[trigger] r[j]).id != q.id
        }),
{
    let s1 = upserted(s, p);
    lemma_upsert_in_place(s, p);
    lemma_upsert_in_place(s1, q);
    let r = upserted(s1, q);
    assert(has_id(s1, q.id));
    lemma_id_position(s1, q.id);
    let k = id_position(s1, q.id);
    assert(r[k] == q);
    assert forall|j: int| 0 <= j < r.len() && j != k implies (#[trigger] r[j]).id != q.id by {
        if r[j].id == q.id {
            assert(r[k].id == r[j].id);
        }
    }
}

proof fn lemma_filter_keeps_all(s: Seq<ProjectModel>, id: Seq<char>)
    requires
        forall|i: int| 0 <= i < s.len() ==> (#[trigger] s[i]).id != id,
    ensures
        s.filter(|x: ProjectModel| x.id != id) == s,
    decreases s.len(),
{
    reveal(Seq::filter);
    if s.len() > 0 {
        lemma_filter_keeps_all(s.drop_last(), id);
        assert(s.drop_last().push(s.last()) =~= s);
    }
}

proof fn lemma_remove_is_filter_at(s: Seq<ProjectModel>, id: Seq<char>, k: int)
    requires
        0 <= k < s.len(),
        s[k].id == id,
        forall|i: int| 0 <= i < s.len() && i != k ==> (#[trigger] s[i]).id != id,
    ensures
        s.remove(k) == s.filter(|x: ProjectModel| x.id != id),
    decreases s.len(),
{
    reveal(Seq::filter);
    let init = s.drop_last();
    if k == s.len() - 1 {
        lemma_filter_keeps_all(init, id);
        assert(s.remove(k) =~= init);
    } else {
        lemma_remove_is_filter_at(init, id, k);
        assert(s.remove(k) =~= init.remove(k).push(s.last()));
    }
}

/// Removing a present id from a registry with unique ids leaves exactly the
/// other records, in their relative order.
pub proof fn lemma_remove_keeps_others(s: Seq<ProjectModel>, id: Seq<char>)
    requires
        unique_ids(s),
        has_id(s, id),
    ensures
        removed(s, id) == s.filter(|x: ProjectModel| x.id != id),
        !has_id(removed(s, id), id),
{
    lemma_id_position(s, id);
    let k = id_position(s, id);
    assert forall|i: int| 0 <= i < s.len() && i != k implies (#[trigger] s[i]).id != id by {
        if s[i].id == id {
            assert(s[i].id == s[k].id);
        }
    }
    lemma_remove_is_filter_at(s, id, k);
    let r = removed(s, id);
    if has_id(r, id) {
        let w = choose|i: int| 0 <= i < r.len() && (#[trigger] r[i]).id == id;
        if w < k {
            assert(r[w] == s[w]);
        } else {
            assert(r[w] == s[w + 1]);
        }
    }
}

/// Storing a record and then removing its id leaves no record with that id.
pub proof fn lemma_remove_after_upsert(s: Seq<ProjectModel>, p: ProjectModel)
    requires
        unique_ids(s),
    ensures
        !has_id(removed(upserted(s, p), p.id), p.id),
{
    lemma_upsert_in_place(s, p);
    lemma_remove_keeps_others(upserted(s, p), p.id);
}

/// `k` is the last position of `ps` whose record has the id.
pub open spec fn last_with_id(ps: Seq<ProjectModel>, id: Seq<char>, k: int) -> bool {
    &&& 0 <= k < ps.len()
    &&& ps[k].id == id
    &&& forall|j: int| k < j < ps.len() ==> (#[trigger] ps[j]).id != id
}

proof fn lemma_first_unique(s: Seq<ProjectModel>, id: Seq<char>, i: int, j: int)
    requires
        first_with_id(s, id, i),
        first_with_id(s, id, j),
    ensures
        i == j,
{
    if i < j {
        assert(s[i].id == id);
    } else if j < i {
        assert(s[j].id == id);
    }
}

proof fn lemma_id_position_push(s: Seq<ProjectModel>, p: ProjectModel, id: Seq<char>)
    requires
        has_id(s, id),
    ensures
        has_id(s.push(p), id),
        id_position(s.push(p), id) == id_position(s, id),
{
    lemma_id_position(s, id);
    let j = id_position(s, id);
    let t = s.push(p);
    assert(t[j].id == id);
    assert(first_with_id(t, id, j));
    lemma_id_position(t, id);
    lemma_first_unique(t, id, j, id_position(t, id));
}

/// Storing any records in turn into an empty registry lists each id once,
/// in the order in which the ids first came, each with the record last
/// stored under it.
pub proof fn lemma_upsert_all_last_wins(ps: Seq<ProjectModel>)
    ensures
        unique_ids(upsert_all(Seq::empty(), ps)),
        forall|k: int| 0 <= k < ps.len() ==> has_id(upsert_all(Seq::empty(), ps), (#[trigger] ps[k]).id),
        forall|i: int|
            0 <= i < upsert_all(Seq::empty(), ps).len() ==> exists|k: int|
                last_with_id(ps, (#[trigger] upsert_all(Seq::empty(), ps)[i]).id, k) && ps[k]
                    == upsert_all(Seq::empty(), ps)[i],
        forall|i: int, j: int|
            0 <= i < j < upsert_all(Seq::empty(), ps).len() ==> id_position(
                ps,
                (#[trigger] upsert_all(Seq::empty(), ps)[i]).id,
            ) < id_position(ps, (#[trigger] upsert_all(Seq::empty(), ps)[j]).id),
    decreases ps.len(),
{
    let r = upsert_all(Seq::empty(), ps);
    if ps.len() == 0 {
        assert(r.len() == 0);
    } else {
        let init = ps.drop_last();
        let p = ps.last();
        let n = init.len() as int;
        assert(init.push(p) =~= ps);
        lemma_upsert_all_last_wins(init);
        let r0 = upsert_all(Seq::empty(), init);
        assert(r == upserted(r0, p));
        lemma_upsert_in_place(r0, p);
        // every id of r0 comes from init
        assert forall|i: int| 0 <= i < r0.len() implies has_id(init, (#[trigger] r0[i]).id) by {
            let k = choose|k: int| last_with_id(init, r0[i].id, k) && init[k] == r0[i];
            assert(init[k].id == r0[i].id);
        }
        assert forall|k: int| 0 <= k < ps.len() implies has_id(r, (#[trigger] ps[k]).id) by {
            if k < n {
                assert(ps[k] == init[k]);
                assert(has_id(r0, init[k].id));
                let w = choose|w: int| 0 <= w < r0.len() && (#[trigger] r0[w]).id == init[k].id;
                if has_id(r0, p.id) {
                    assert(r[w].id == r0[w].id || w == id_position(r0, p.id));
                    if w == id_position(r0, p.id) {
                        assert(r[w].id == p.id);
                        assert(r0[w].id == p.id);
                    }
                    assert(r[w].id == ps[k].id);
                } else {
                    assert(r[w] == r0[w]);
                }
            }
        }
        if has_id(r0, p.id) {
            lemma_id_position(r0, p.id);
            let k0 = id_position(r0, p.id);
            assert forall|i: int| 0 <= i < r.len() implies exists|k: int|
                last_with_id(ps, (#[trigger] r[i]).id, k) && ps[k] == r[i] by {
                if i == k0 {
                    assert(last_with_id(ps, r[i].id, n));
                } else {
                    let k = choose|k: int| last_with_id(init, r0[i].id, k) && init[k] == r0[i];
                    assert(r0[i].id != p.id) by {
                        if r0[i].id == p.id {
                            assert(r0[i].id == r0[k0].id);
                        }
                    }
                    assert(r[i] == r0[i]);
                    assert(last_with_id(ps, r[i].id, k));
                }
            }
            assert forall|i: int, j: int|
                0 <= i < j < r.len() implies id_position(ps, (#[trigger] r[i]).id) < id_position(
                ps,
                (#[trigger] r[j]).id,
            ) by {
                assert(r[i].id == r0[i].id) by {
                    if i == k0 {
                        assert(r0[k0].id == p.id);
                    }
                }
                assert(r[j].id == r0[j].id) by {
                    if j == k0 {
                        assert(r0[k0].id == p.id);
                    }
                }
                lemma_id_position_push(init, p, r0[i].id);
                lemma_id_position_push(init, p, r0[j].id);
                assert(id_position(init, r0[i].id) < id_position(init, r0[j].id));
            }
        } else {
            assert(!has_id(init, p.id)) by {
                if has_id(init, p.id) {
                    let k = choose|k: int| 0 <= k < init.len() && (#[trigger] init[k]).id == p.id;
                    assert(has_id(r0, init[k].id));
                }
            }
            assert(first_with_id(ps, p.id, n));
            lemma_id_position(ps, p.id);
            lemma_first_unique(ps, p.id, n, id_position(ps, p.id));
            assert forall|i: int| 0 <= i < r.len() implies exists|k: int|
                last_with_id(ps, (#[trigger] r[i]).id, k) && ps[k] == r[i] by {
                if i == r0.len() {
                    assert(last_with_id(ps, r[i].id, n));
                } else {
                    let k = choose|k: int| last_with_id(init, r0[i].id, k) && init[k] == r0[i];
                    assert(r[i] == r0[i]);
                    assert(r0[i].id != p.id) by {
                        if r0[i].id == p.id {
                            assert(has_id(r0, p.id));
                        }
                    }
                    assert(last_with_id(ps, r[i].id, k));
                }
            }
            assert forall|i: int, j: int|
                0 <= i < j < r.len() implies id_position(ps, (#[trigger] r[i]).id) < id_position(
                ps,
                (#[trigger] r[j]).id,
            ) by {
                assert(r[i] == r0[i]);
                lemma_id_position_push(init, p, r0[i].id);
                lemma_id_position(init, r0[i].id);
                if j < r0.len() {
                    assert(r[j] == r0[j]);
                    lemma_id_position_push(init, p, r0[j].id);
                }
            }
        }
    }
}

} // verus!
