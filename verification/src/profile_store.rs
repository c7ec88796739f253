//! Saved profiles: naming, inserting or replacing a profile, and their order.
use vstd::prelude::*;
use crate::models::{ProfileDraft, ProfileDraftView, ProfileRecord, ProfileRecordView};
use crate::sorting::{lemma_sort_by_key, sort_by_key, sort_pos_from};
use crate::text::{decimal_digits, is_blank_str, push_decimal, trim, trimmed};

verus! {

broadcast use vstd::seq_lib::group_seq_properties;

/// Why a profile could not be saved.
#[derive(Clone, Copy, Debug, PartialEq, Eq, Structural)]
pub enum ProfileError {
    EmptyName,
}

impl ProfileError {
    /// The text shown for this error.
    pub fn message(&self) -> (m: String)
        ensures
            m@ == "Profile name cannot be empty."@,
    {
        "Profile name cannot be empty.".to_owned()
    }
}

/// Sort key that puts the most recently updated profile first.
pub open spec fn profile_recency_key(p: ProfileRecordView) -> int {
    -(p.updated_at_ms as int)
}

/// The profile sort key as a function value.
pub open spec fn profile_recency_key_fn() -> spec_fn(ProfileRecordView) -> int {
    |p: ProfileRecordView| profile_recency_key(p)
}

/// Profiles most recently updated first; profiles updated at the same time keep their order.
pub open spec fn profiles_by_recency(profiles: Seq<ProfileRecordView>) -> Seq<ProfileRecordView> {
    sort_by_key(profiles, profile_recency_key_fn())
}

/// Index of the first profile with id `id`, searching from `k`.
pub open spec fn profile_index_from(profiles: Seq<ProfileRecordView>, id: Seq<char>, k: int) -> Option<int>
    decreases profiles.len() - k,
{
    if k < 0 || k >= profiles.len() {
        None
    } else if profiles[k].id == id {
        Some(k)
    } else {
        profile_index_from(profiles, id, k + 1)
    }
}

/// The id given to a profile saved without one at time `now`.
pub open spec fn new_profile_id(now: u128) -> Seq<char> {
    "profile-"@ + decimal_digits(now as nat)
}

/// A profile created from `draft` at time `now` under `id`.
pub open spec fn new_profile(id: Seq<char>, draft: ProfileDraftView, now: u128) -> ProfileRecordView {
    ProfileRecordView {
        id,
        name: trimmed(draft.name),
        config: draft.config,
        created_at_ms: now,
        updated_at_ms: now,
    }
}

/// `profiles` after saving `draft` at time `now`, before ordering: the profile with the
/// draft's id takes the draft's trimmed name and configuration; a draft with an unknown id,
/// or without an id, adds a profile at the end.
pub open spec fn upserted_profiles(profiles: Seq<ProfileRecordView>, draft: ProfileDraftView, now: u128) -> Seq<
    ProfileRecordView,
> {
    match draft.id {
        Some(id) => match profile_index_from(profiles, id, 0) {
            Some(i) => profiles.update(i, ProfileRecordView {
                name: trimmed(draft.name),
                config: draft.config,
                updated_at_ms: now,
                ..profiles[i]
            }),
            None => profiles.push(new_profile(id, draft, now)),
        },
        None => profiles.push(new_profile(new_profile_id(now), draft, now)),
    }
}

/// The trimmed name of a draft, refused when it is empty.
pub fn check_profile_name(draft: &ProfileDraft) -> (r: Result<String, ProfileError>)
    ensures
        match r {
            Ok(name) => name@ == trimmed(draft@.name) && trimmed(draft@.name).len() > 0,
            Err(e) => e == ProfileError::EmptyName && trimmed(draft@.name).len() == 0,
        },
{
    if is_blank_str(draft.name.as_str()) {
        Err(ProfileError::EmptyName)
    } else {
        Ok(trim(draft.name.as_str()))
    }
}


/// The log line of a saved profile: its trimmed name in quotes.
pub fn saved_profile_message(name: &str) -> (m: String)
    ensures
        m@ == "Saved profile '"@ + trimmed(name@) + "'."@,
{
    let mut m = "Saved profile '".to_owned();
    let t = trim(name);
    m.append(t.as_str());
    m.append("'.");
    m
}

/// Inserts `x` into `v`, which is ordered by `profile_recency_key`, after the profiles whose
/// key is not greater.
fn insert_profile_by_recency(v: &mut Vec<ProfileRecord>, x: ProfileRecord)
    ensures
        final(v).deep_view() == crate::sorting::insert_by_key(old(v).deep_view(), x@, profile_recency_key_fn()),
{
    let ghost s = v.deep_view();
    let mut j: usize = 0;
    while j < v.len() && v[j].updated_at_ms >= x.updated_at_ms
        invariant
            s == v.deep_view(),
            j <= v@.len(),
            sort_pos_from(s, x@, profile_recency_key_fn(), 0) == sort_pos_from(s, x@, profile_recency_key_fn(), j as int),
        decreases v@.len() - j,
    {
        assert(s[j as int] == v@[j as int]@);
        j = j + 1;
    }
    proof {
        if j < v@.len() {
            assert(s[j as int] == v@[j as int]@);
        }
    }
    v.insert(j, x);
    assert(v.deep_view() =~= s.insert(j as int, x@));
}

/// The profiles most recently updated first.
pub fn sort_profiles(profiles: Vec<ProfileRecord>) -> (r: Vec<ProfileRecord>)
    ensures
        r.deep_view() == profiles_by_recency(profiles.deep_view()),
{
    let ghost all = profiles.deep_view();
    let mut r: Vec<ProfileRecord> = Vec::new();
    let mut i: usize = 0;
    while i < profiles.len()
        invariant
            all == profiles.deep_view(),
            i <= profiles@.len(),
            r.deep_view() == sort_by_key(all.take(i as int), profile_recency_key_fn()),
        decreases profiles@.len() - i,
    {
        assert(all.take(i + 1).drop_last() == all.take(i as int));
        assert(all.take(i + 1).last() == profiles@[i as int]@);
        insert_profile_by_recency(&mut r, profiles[i].clone());
        i = i + 1;
    }
    assert(all.take(i as int) == all);
    r
}

/// Position of the first profile with id `id`.
fn find_profile(profiles: &Vec<ProfileRecord>, id: &String) -> (r: Option<usize>)
    ensures
        r matches Some(i) ==> profile_index_from(profiles.deep_view(), id@, 0) == Some(i as int)
            && i < profiles@.len(),
        r is None ==> profile_index_from(profiles.deep_view(), id@, 0) is None,
{
    let ghost ps = profiles.deep_view();
    let mut i: usize = 0;
    while i < profiles.len()
        invariant
            ps == profiles.deep_view(),
            i <= profiles@.len(),
            profile_index_from(ps, id@, 0) == profile_index_from(ps, id@, i as int),
        decreases profiles@.len() - i,
    {
        assert(ps[i as int] == profiles@[i as int]@);
        if profiles[i].id == *id {
            return Some(i);
        }
        i = i + 1;
    }
    None
}

/// `profiles` after saving `draft` at time `now`, most recently updated first; refused when
/// the draft's trimmed name is empty.
pub fn save_profile(profiles: Vec<ProfileRecord>, draft: ProfileDraft, now: u128) -> (r: Result<
    Vec<ProfileRecord>,
    ProfileError,
>)
    ensures
        trimmed(draft@.name).len() == 0 ==> r == Err::<Vec<ProfileRecord>, ProfileError>(
            ProfileError::EmptyName),
        trimmed(draft@.name).len() > 0 ==> (r matches Ok(v) && v.deep_view() == profiles_by_recency(
            upserted_profiles(profiles.deep_view(), draft@, now))),
{
    let name = match check_profile_name(&draft) {
        Ok(n) => n,
        Err(e) => return Err(e),
    };
    let ghost before = profiles.deep_view();
    let mut profiles = profiles;
    match &draft.id {
        Some(id) => match find_profile(&profiles, id) {
            Some(i) => {
                let old = profiles[i].clone();
                profiles.set(i, ProfileRecord {
                    id: old.id,
                    name,
                    config: draft.config,
                    created_at_ms: old.created_at_ms,
                    updated_at_ms: now,
                });
                assert(profiles.deep_view() =~= upserted_profiles(before, draft@, now));
            },
            None => {
                profiles.push(ProfileRecord {
                    id: id.clone(),
                    name,
                    config: draft.config,
                    created_at_ms: now,
                    updated_at_ms: now,
                });
                assert(profiles.deep_view() =~= upserted_profiles(before, draft@, now));
            },
        },
        None => {
            let mut id = "profile-".to_owned();
            push_decimal(&mut id, now);
            profiles.push(ProfileRecord { id, name, config: draft.config, created_at_ms: now, updated_at_ms: now });
            assert(profiles.deep_view() =~= upserted_profiles(before, draft@, now));
        },
    }
    Ok(sort_profiles(profiles))
}


/// The id under which a draft is saved at time `now`: its own, or a new one from the time.
pub open spec fn saved_profile_id(draft: ProfileDraftView, now: u128) -> Seq<char> {
    match draft.id {
        Some(id) => id,
        None => new_profile_id(now),
    }
}

/// After a save, the profiles are listed most recently updated first; the saved profile is
/// among them, with the draft's trimmed name and configuration and the time of the save; and
/// a profile was added exactly when no profile had the draft's id.
pub proof fn lemma_saved_profile_listed(profiles: Seq<ProfileRecordView>, draft: ProfileDraftView, now: u128)
    ensures
        ({
            let listed = profiles_by_recency(upserted_profiles(profiles, draft, now));
            &&& forall|i: int, j: int| 0 <= i < j < listed.len() ==> #[trigger] listed[i].updated_at_ms
                >= #[trigger] listed[j].updated_at_ms
            &&& exists|k: int| 0 <= k < listed.len() && #[trigger] listed[k].id == saved_profile_id(draft, now)
                && listed[k].name == trimmed(draft.name) && listed[k].config == draft.config
                && listed[k].updated_at_ms == now
            &&& listed.len() == profiles.len() + if draft.id matches Some(id) && profile_index_from(profiles,
                id, 0) is Some {
                0int
            } else {
                1int
            }
        }),
{
    let up = upserted_profiles(profiles, draft, now);
    let listed = profiles_by_recency(up);
    lemma_sort_by_key(up, profile_recency_key_fn());
    assert forall|i: int, j: int| 0 <= i < j < listed.len() implies #[trigger] listed[i].updated_at_ms
        >= #[trigger] listed[j].updated_at_ms by {
        assert(profile_recency_key_fn()(listed[i]) <= profile_recency_key_fn()(listed[j]));
    }
    let pos = match draft.id {
        Some(id) => match profile_index_from(profiles, id, 0) {
            Some(i) => i,
            None => profiles.len() as int,
        },
        None => profiles.len() as int,
    };
    if draft.id is Some {
        lemma_profile_index_from(profiles, draft.id->0, 0);
    }
    let saved = up[pos];
    assert(saved.id == saved_profile_id(draft, now) && saved.name == trimmed(draft.name)
        && saved.config == draft.config && saved.updated_at_ms == now);
    assert(up.to_multiset().count(saved) > 0) by {
        up.to_multiset_ensures();
        assert(up.contains(saved));
    }
    assert(listed.to_multiset().count(saved) > 0);
    listed.to_multiset_ensures();
    assert(listed.contains(saved));
    let k = choose|k: int| 0 <= k < listed.len() && listed[k] == saved;
    assert(listed[k].id == saved_profile_id(draft, now));
}

/// Loading the profiles right after a save gives back the saved list: the list a save returns
/// and stores is already most recently updated first, and sorting it again leaves it as it is.
pub proof fn lemma_reload_after_save(profiles: Seq<ProfileRecordView>, draft: ProfileDraftView, now: u128)
    ensures
        ({
            let saved = profiles_by_recency(upserted_profiles(profiles, draft, now));
            profiles_by_recency(saved) == saved
        }),
{
    let saved = profiles_by_recency(upserted_profiles(profiles, draft, now));
    lemma_sort_by_key(upserted_profiles(profiles, draft, now), profile_recency_key_fn());
    crate::sorting::lemma_sort_sorted_unchanged(saved, profile_recency_key_fn());
}

proof fn lemma_first_profile(profiles: Seq<ProfileRecordView>, id: Seq<char>, i: int, k: int)
    requires
        0 <= k <= i < profiles.len(),
        profiles[i].id == id,
        forall|j: int| 0 <= j < i ==> #[trigger] profiles[j].id != id,
    ensures
        profile_index_from(profiles, id, k) == Some(i),
    decreases i - k,
{
    if k < i {
        lemma_first_profile(profiles, id, i, k + 1);
    }
}

proof fn lemma_no_profile(profiles: Seq<ProfileRecordView>, id: Seq<char>, k: int)
    requires
        0 <= k,
        forall|j: int| 0 <= j < profiles.len() ==> #[trigger] profiles[j].id != id,
    ensures
        profile_index_from(profiles, id, k) is None,
    decreases profiles.len() - k,
{
    if k < profiles.len() {
        lemma_no_profile(profiles, id, k + 1);
    }
}

/// Saving a draft with the id of a stored profile (the first stored under that id) changes
/// that profile only: the saved list holds every other stored profile unchanged, and in place
/// of that one a profile with the same id and creation time, the draft's trimmed name and
/// configuration, and the time of the save.
pub proof fn lemma_save_replaces_only_the_drafted_profile(profiles: Seq<ProfileRecordView>,
    draft: ProfileDraftView, now: u128, i: int)
    requires
        0 <= i < profiles.len(),
        draft.id == Some(profiles[i].id),
        forall|j: int| 0 <= j < i ==> #[trigger] profiles[j].id != profiles[i].id,
    ensures
        profiles_by_recency(upserted_profiles(profiles, draft, now)).to_multiset() == profiles.to_multiset().remove(
            profiles[i]).insert(ProfileRecordView {
            id: profiles[i].id,
            name: trimmed(draft.name),
            config: draft.config,
            created_at_ms: profiles[i].created_at_ms,
            updated_at_ms: now,
        }),
{
    broadcast use vstd::multiset::group_multiset_axioms;
    lemma_first_profile(profiles, profiles[i].id, i, 0);
    let up = upserted_profiles(profiles, draft, now);
    lemma_sort_by_key(up, profile_recency_key_fn());
    let rec = ProfileRecordView {
        id: profiles[i].id,
        name: trimmed(draft.name),
        config: draft.config,
        created_at_ms: profiles[i].created_at_ms,
        updated_at_ms: now,
    };
    assert(up == profiles.update(i, rec));
    vstd::seq_lib::to_multiset_update(profiles, i, rec);
    profiles.to_multiset_ensures();
    assert(profiles.contains(profiles[i]));
    assert(profiles.to_multiset().insert(rec).remove(profiles[i]) =~= profiles.to_multiset().remove(
        profiles[i]).insert(rec));
}

/// Saving a draft without an id, or with an id no stored profile has, adds one profile and
/// changes none: the saved list holds every stored profile unchanged and a new profile under
/// the draft's id (or `profile-` and the time of the save), with the draft's trimmed name and
/// configuration, created and updated at the time of the save.
pub proof fn lemma_save_adds_one_profile(profiles: Seq<ProfileRecordView>, draft: ProfileDraftView, now: u128)
    requires
        draft.id matches Some(id) ==> forall|j: int| 0 <= j < profiles.len() ==> #[trigger] profiles[j].id != id,
    ensures
        profiles_by_recency(upserted_profiles(profiles, draft, now)).to_multiset() == profiles.to_multiset().insert(
            ProfileRecordView {
                id: match draft.id {
                    Some(id) => id,
                    None => "profile-"@ + decimal_digits(now as nat),
                },
                name: trimmed(draft.name),
                config: draft.config,
                created_at_ms: now,
                updated_at_ms: now,
            }),
{
    if draft.id is Some {
        lemma_no_profile(profiles, draft.id->0, 0);
    }
    let up = upserted_profiles(profiles, draft, now);
    lemma_sort_by_key(up, profile_recency_key_fn());
    let rec = ProfileRecordView {
        id: match draft.id {
            Some(id) => id,
            None => "profile-"@ + decimal_digits(now as nat),
        },
        name: trimmed(draft.name),
        config: draft.config,
        created_at_ms: now,
        updated_at_ms: now,
    };
    assert(up == profiles.push(rec));
    vstd::seq_lib::lemma_multiset_commutative(profiles, seq![rec]);
    assert(profiles.push(rec) == profiles + seq![rec]);
    assert(seq![rec].to_multiset() =~= vstd::multiset::Multiset::empty().insert(rec)) by {
        broadcast use vstd::seq_lib::group_to_multiset_ensures;
    }
    assert(profiles.to_multiset().add(vstd::multiset::Multiset::empty().insert(rec)) =~= profiles.to_multiset().insert(rec)) by {
        broadcast use vstd::multiset::group_multiset_axioms;
    }
}

proof fn lemma_profile_index_from(profiles: Seq<ProfileRecordView>, id: Seq<char>, k: int)
    ensures
        profile_index_from(profiles, id, k) matches Some(i) ==> k <= i < profiles.len() && profiles[i].id == id,
    decreases profiles.len() - k,
{
    if 0 <= k < profiles.len() && profiles[k].id != id {
        lemma_profile_index_from(profiles, id, k + 1);
    }
}

} // verus!
