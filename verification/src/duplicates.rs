use crate::spotify::track::{track_views, Track, TrackView};
use crate::trackmap::{contains_text, texts, Trackmap};
use vstd::prelude::*;

verus! {

/// The identifiers found under one track name, in the order in which they
/// were first met.
#[derive(Debug, Clone, PartialEq, Eq)]
pub struct DuplicateGroup {
    pub name: String,
    pub ids: Vec<String>,
}

/// The duplicates of one playlist: one group for each track name that is
/// left with more than one identifier, in the order in which the names were
/// first met.
#[derive(Debug, Clone, PartialEq, Eq)]
pub struct DuplicateReport {
    pub groups: Vec<DuplicateGroup>,
}

/// What a group is: a track name and the identifiers under it, as text.
pub struct GroupView {
    pub name: Seq<char>,
    pub ids: Seq<Seq<char>>,
}

impl View for DuplicateGroup {
    type V = GroupView;

    open spec fn view(&self) -> GroupView {
        GroupView { name: self.name@, ids: texts(self.ids@) }
    }
}

/// The groups of a list, each by its view, in order.
pub open spec fn group_views(groups: Seq<DuplicateGroup>) -> Seq<GroupView> {
    Seq::new(groups.len(), |i: int| groups[i]@)
}

impl View for DuplicateReport {
    type V = Seq<GroupView>;

    open spec fn view(&self) -> Seq<GroupView> {
        group_views(self.groups@)
    }
}

impl DuplicateReport {
    /// Whether no duplicates were found.
    pub fn is_empty(&self) -> (empty: bool)
        ensures
            empty == (self@.len() == 0),
    {
        self.groups.len() == 0
    }
}

/// The identifiers that the table holds for `name`: none where it has no entry.
pub open spec fn aliases_of(table: Map<Seq<char>, Seq<Seq<char>>>, name: Seq<char>) -> Seq<
    Seq<char>,
> {
    if table.dom().contains(name) {
        table[name]
    } else {
        Seq::empty()
    }
}

/// Whether one of `aliases` is among `recorded`.
pub open spec fn alias_recorded(aliases: Seq<Seq<char>>, recorded: Seq<Seq<char>>) -> bool {
    exists|i: int| 0 <= i < aliases.len() && recorded.contains(#[trigger] aliases[i])
}

/// Whether a track with identifier `id` is added to the identifiers
/// `recorded` under its name: it is, unless it is there already or one of
/// the name's aliases is.
pub open spec fn admits(recorded: Seq<Seq<char>>, aliases: Seq<Seq<char>>, id: Seq<char>) -> bool {
    !recorded.contains(id) && !alias_recorded(aliases, recorded)
}

/// The identifiers recorded under `name` once `tracks` have been read in order.
pub open spec fn recorded_ids(tracks: Seq<TrackView>, name: Seq<char>, aliases: Seq<Seq<char>>) -> Seq<
    Seq<char>,
>
    decreases tracks.len(),
{
    if tracks.len() == 0 {
        Seq::empty()
    } else {
        let before = recorded_ids(tracks.drop_last(), name, aliases);
        let track = tracks.last();
        if track.name == name && admits(before, aliases, track.id) {
            before.push(track.id)
        } else {
            before
        }
    }
}

/// The names of `tracks`, each once, in the order of their first track.
pub open spec fn names_seen(tracks: Seq<TrackView>) -> Seq<Seq<char>>
    decreases tracks.len(),
{
    if tracks.len() == 0 {
        Seq::empty()
    } else {
        let before = names_seen(tracks.drop_last());
        if before.contains(tracks.last().name) {
            before
        } else {
            before.push(tracks.last().name)
        }
    }
}

/// The group of `name` in `tracks`.
pub open spec fn group_of(
    tracks: Seq<TrackView>,
    table: Map<Seq<char>, Seq<Seq<char>>>,
    name: Seq<char>,
) -> GroupView {
    GroupView { name, ids: recorded_ids(tracks, name, aliases_of(table, name)) }
}

/// One group for each name of `tracks`, in the order of `names_seen`.
pub open spec fn all_groups(tracks: Seq<TrackView>, table: Map<Seq<char>, Seq<Seq<char>>>) -> Seq<
    GroupView,
> {
    let names = names_seen(tracks);
    Seq::new(names.len(), |k: int| group_of(tracks, table, names[k]))
}

/// Those of `groups` that hold more than one identifier, in order.
pub open spec fn with_duplicates(groups: Seq<GroupView>) -> Seq<GroupView>
    decreases groups.len(),
{
    if groups.len() == 0 {
        Seq::empty()
    } else {
        let before = with_duplicates(groups.drop_last());
        if groups.last().ids.len() > 1 {
            before.push(groups.last())
        } else {
            before
        }
    }
}

/// The report for `tracks` under the table `table`.
pub open spec fn duplicate_report(
    tracks: Seq<TrackView>,
    table: Map<Seq<char>, Seq<Seq<char>>>,
) -> Seq<GroupView> {
    with_duplicates(all_groups(tracks, table))
}

/// `names_seen` holds no name twice, and holds the name of every track.
pub proof fn names_seen_is_exact(tracks: Seq<TrackView>)
    ensures
        names_seen(tracks).no_duplicates(),
        forall|i: int| 0 <= i < tracks.len() ==> names_seen(tracks).contains(#[trigger] tracks[i].name),
        forall|name: Seq<char>| #[trigger]
            names_seen(tracks).contains(name) ==> exists|i: int|
                0 <= i < tracks.len() && #[trigger] tracks[i].name == name,
    decreases tracks.len(),
{
    if tracks.len() > 0 {
        let front = tracks.drop_last();
        names_seen_is_exact(front);
        let before = names_seen(front);
        let last = tracks.last();
        assert forall|i: int| 0 <= i < tracks.len() implies names_seen(tracks).contains(
            #[trigger] tracks[i].name,
        ) by {
            if i < tracks.len() - 1 {
                assert(front[i] == tracks[i]);
                let k = choose|k: int| 0 <= k < before.len() && before[k] == front[i].name;
                assert(names_seen(tracks)[k] == tracks[i].name);
            } else if before.contains(last.name) {
            } else {
                assert(names_seen(tracks)[before.len() as int] == last.name);
            }
        }
        assert forall|name: Seq<char>| #[trigger]
            names_seen(tracks).contains(name) implies exists|i: int|
            0 <= i < tracks.len() && #[trigger] tracks[i].name == name by {
            if before.contains(name) {
                let i = choose|i: int| 0 <= i < front.len() && #[trigger] front[i].name == name;
                assert(tracks[i].name == name);
            } else {
                assert(tracks[tracks.len() - 1].name == name);
            }
        }
    }
}

/// Under a name that no track bears, nothing is recorded.
pub proof fn absent_name_records_nothing(
    tracks: Seq<TrackView>,
    name: Seq<char>,
    aliases: Seq<Seq<char>>,
)
    requires
        forall|i: int| 0 <= i < tracks.len() ==> #[trigger] tracks[i].name != name,
    ensures
        recorded_ids(tracks, name, aliases) == Seq::<Seq<char>>::empty(),
    decreases tracks.len(),
{
    if tracks.len() > 0 {
        let front = tracks.drop_last();
        assert forall|i: int| 0 <= i < front.len() implies #[trigger] front[i].name != name by {
            assert(front[i] == tracks[i]);
        }
        absent_name_records_nothing(front, name, aliases);
        assert(tracks[tracks.len() - 1].name != name);
    }
}

/// The identifiers recorded under a name are distinct.
pub proof fn recorded_ids_are_distinct(
    tracks: Seq<TrackView>,
    name: Seq<char>,
    aliases: Seq<Seq<char>>,
)
    ensures
        recorded_ids(tracks, name, aliases).no_duplicates(),
    decreases tracks.len(),
{
    if tracks.len() > 0 {
        recorded_ids_are_distinct(tracks.drop_last(), name, aliases);
    }
}

/// Every group of a report holds more than one identifier, and each group
/// is one of `groups`.
pub proof fn with_duplicates_keeps_only_duplicates(groups: Seq<GroupView>)
    ensures
        forall|k: int|
            0 <= k < with_duplicates(groups).len() ==> {
                &&& (#[trigger] with_duplicates(groups)[k]).ids.len() > 1
                &&& groups.contains(with_duplicates(groups)[k])
            },
    decreases groups.len(),
{
    if groups.len() > 0 {
        let front = groups.drop_last();
        with_duplicates_keeps_only_duplicates(front);
        let kept = with_duplicates(groups);
        assert forall|k: int| 0 <= k < kept.len() implies {
            &&& (#[trigger] kept[k]).ids.len() > 1
            &&& groups.contains(kept[k])
        } by {
            if k < with_duplicates(front).len() {
                let j = choose|j: int| 0 <= j < front.len() && front[j] == with_duplicates(front)[k];
                assert(groups[j] == kept[k]);
            } else {
                assert(groups[groups.len() - 1] == kept[k]);
            }
        }
    }
}

/// Whether `tracks` holds a track with this name and this identifier.
pub open spec fn has_track(tracks: Seq<TrackView>, name: Seq<char>, id: Seq<char>) -> bool {
    exists|i: int| 0 <= i < tracks.len() && #[trigger] tracks[i] == (TrackView { id, name })
}

/// Every identifier recorded under a name is that of a track of this name.
pub proof fn recorded_ids_come_from_tracks(
    tracks: Seq<TrackView>,
    name: Seq<char>,
    aliases: Seq<Seq<char>>,
)
    ensures
        forall|k: int|
            0 <= k < recorded_ids(tracks, name, aliases).len() ==> has_track(
                tracks,
                name,
                #[trigger] recorded_ids(tracks, name, aliases)[k],
            ),
    decreases tracks.len(),
{
    if tracks.len() > 0 {
        let front = tracks.drop_last();
        recorded_ids_come_from_tracks(front, name, aliases);
        let ids = recorded_ids(tracks, name, aliases);
        let before = recorded_ids(front, name, aliases);
        assert forall|k: int| 0 <= k < ids.len() implies has_track(tracks, name, #[trigger] ids[k]) by {
            if k < before.len() {
                assert(ids[k] == before[k]);
                assert(has_track(front, name, before[k]));
                let i = choose|i: int|
                    0 <= i < front.len() && #[trigger] front[i] == (TrackView {
                        id: before[k],
                        name,
                    });
                assert(tracks[i] == front[i]);
            } else {
                assert(tracks[tracks.len() - 1] == (TrackView { id: ids[k], name }));
            }
        }
    }
}

/// A report names only what is met more than once: each of its groups holds
/// at least two identifiers, all distinct, and is the group of its name
/// among the tracks.
pub proof fn report_holds_only_duplicates(
    tracks: Seq<TrackView>,
    table: Map<Seq<char>, Seq<Seq<char>>>,
)
    ensures
        forall|k: int|
            0 <= k < duplicate_report(tracks, table).len() ==> {
                let group = #[trigger] duplicate_report(tracks, table)[k];
                &&& group.ids.len() > 1
                &&& group.ids.no_duplicates()
                &&& names_seen(tracks).contains(group.name)
                &&& group == group_of(tracks, table, group.name)
            },
{
    let groups = all_groups(tracks, table);
    let report = duplicate_report(tracks, table);
    with_duplicates_keeps_only_duplicates(groups);
    assert forall|k: int| 0 <= k < report.len() implies {
        let group = #[trigger] report[k];
        &&& group.ids.len() > 1
        &&& group.ids.no_duplicates()
        &&& names_seen(tracks).contains(group.name)
        &&& group == group_of(tracks, table, group.name)
    } by {
        let group = report[k];
        let j = choose|j: int| 0 <= j < groups.len() && groups[j] == group;
        assert(group.name == names_seen(tracks)[j]);
        recorded_ids_are_distinct(tracks, group.name, aliases_of(table, group.name));
    }
}

/// Every group that holds more than one identifier is kept.
pub proof fn with_duplicates_keeps_all_duplicates(groups: Seq<GroupView>)
    ensures
        forall|j: int|
            0 <= j < groups.len() && (#[trigger] groups[j]).ids.len() > 1 ==> with_duplicates(
                groups,
            ).contains(groups[j]),
    decreases groups.len(),
{
    if groups.len() > 0 {
        let front = groups.drop_last();
        with_duplicates_keeps_all_duplicates(front);
        let kept = with_duplicates(groups);
        assert forall|j: int| 0 <= j < groups.len() && (#[trigger] groups[j]).ids.len()
            > 1 implies kept.contains(groups[j]) by {
            if j < front.len() {
                assert(front[j] == groups[j]);
                let k = choose|k: int|
                    0 <= k < with_duplicates(front).len() && with_duplicates(front)[k] == front[j];
                assert(kept[k] == groups[j]);
            } else {
                assert(kept[kept.len() - 1] == groups[j]);
            }
        }
    }
}

/// A report leaves out nothing that is met more than once: the group of
/// every track whose name is left with more than one identifier is in it.
pub proof fn report_holds_every_duplicate(
    tracks: Seq<TrackView>,
    table: Map<Seq<char>, Seq<Seq<char>>>,
)
    ensures
        forall|i: int|
            0 <= i < tracks.len() && group_of(tracks, table, (#[trigger] tracks[i]).name).ids.len()
                > 1 ==> duplicate_report(tracks, table).contains(
                group_of(tracks, table, tracks[i].name),
            ),
{
    let groups = all_groups(tracks, table);
    names_seen_is_exact(tracks);
    with_duplicates_keeps_all_duplicates(groups);
    assert forall|i: int|
        0 <= i < tracks.len() && group_of(tracks, table, (#[trigger] tracks[i]).name).ids.len()
            > 1 implies duplicate_report(tracks, table).contains(
        group_of(tracks, table, tracks[i].name),
    ) by {
        let name = tracks[i].name;
        assert(names_seen(tracks).contains(name));
        let j = choose|j: int| 0 <= j < names_seen(tracks).len() && names_seen(tracks)[j] == name;
        assert(groups[j] == group_of(tracks, table, name));
    }
}

/// A name under which only one identifier is met is not reported, whatever
/// the table holds: no more than one identifier is recorded under it.
pub proof fn one_id_is_no_duplicate(
    tracks: Seq<TrackView>,
    table: Map<Seq<char>, Seq<Seq<char>>>,
    name: Seq<char>,
)
    requires
        forall|i: int, j: int|
            0 <= i < tracks.len() && 0 <= j < tracks.len() && (#[trigger] tracks[i]).name == name
                && (#[trigger] tracks[j]).name == name ==> tracks[i].id == tracks[j].id,
    ensures
        group_of(tracks, table, name).ids.len() <= 1,
        forall|k: int|
            0 <= k < duplicate_report(tracks, table).len() ==> (#[trigger] duplicate_report(
                tracks,
                table,
            )[k]).name != name,
{
    let aliases = aliases_of(table, name);
    let ids = recorded_ids(tracks, name, aliases);
    recorded_ids_are_distinct(tracks, name, aliases);
    recorded_ids_come_from_tracks(tracks, name, aliases);
    if ids.len() > 1 {
        assert(has_track(tracks, name, ids[0]));
        assert(has_track(tracks, name, ids[1]));
        let i = choose|i: int|
            0 <= i < tracks.len() && #[trigger] tracks[i] == (TrackView { id: ids[0], name });
        let j = choose|j: int|
            0 <= j < tracks.len() && #[trigger] tracks[j] == (TrackView { id: ids[1], name });
        assert(tracks[i].id == tracks[j].id);
        assert(ids[0] != ids[1]);
    }
    report_holds_only_duplicates(tracks, table);
}

/// Identifiers that the table declares to be the same track are not
/// reported against each other: where every track of a name bears one of
/// the identifiers that the table gives for this name, the name is not reported.
pub proof fn known_aliases_are_no_duplicates(
    tracks: Seq<TrackView>,
    table: Map<Seq<char>, Seq<Seq<char>>>,
    name: Seq<char>,
)
    requires
        forall|i: int|
            0 <= i < tracks.len() && (#[trigger] tracks[i]).name == name ==> aliases_of(
                table,
                name,
            ).contains(tracks[i].id),
    ensures
        group_of(tracks, table, name).ids.len() <= 1,
        forall|k: int|
            0 <= k < duplicate_report(tracks, table).len() ==> (#[trigger] duplicate_report(
                tracks,
                table,
            )[k]).name != name,
{
    all_known_records_one(tracks, name, aliases_of(table, name));
    report_holds_only_duplicates(tracks, table);
}

/// Where every track of `name` bears one of `aliases`, at most one
/// identifier is recorded under `name`.
proof fn all_known_records_one(tracks: Seq<TrackView>, name: Seq<char>, aliases: Seq<Seq<char>>)
    requires
        forall|i: int|
            0 <= i < tracks.len() && (#[trigger] tracks[i]).name == name ==> aliases.contains(
                tracks[i].id,
            ),
    ensures
        recorded_ids(tracks, name, aliases).len() <= 1,
    decreases tracks.len(),
{
    if tracks.len() > 0 {
        let front = tracks.drop_last();
        assert forall|i: int| 0 <= i < front.len() && (#[trigger] front[i]).name
            == name implies aliases.contains(front[i].id) by {
            assert(front[i] == tracks[i]);
        }
        all_known_records_one(front, name, aliases);
        let before = recorded_ids(front, name, aliases);
        if before.len() == 1 {
            recorded_ids_come_from_tracks(front, name, aliases);
            assert(has_track(front, name, before[0]));
            let i = choose|i: int|
                0 <= i < front.len() && #[trigger] front[i] == (TrackView { id: before[0], name });
            assert(tracks[i] == front[i]);
            assert(aliases.contains(before[0]));
            let a = choose|a: int| 0 <= a < aliases.len() && aliases[a] == before[0];
            assert(before.contains(aliases[a]));
            assert(alias_recorded(aliases, before));
        }
    }
}

/// Without tracks there is nothing to report, whatever the table holds.
pub proof fn no_tracks_no_report(table: Map<Seq<char>, Seq<Seq<char>>>)
    ensures
        duplicate_report(Seq::<TrackView>::empty(), table) == Seq::<GroupView>::empty(),
{
    assert(all_groups(Seq::<TrackView>::empty(), table) == Seq::<GroupView>::empty());
}

/// The report depends on nothing but the tracks and the table: two lists
/// that hold the same tracks in the same order, under tables with the same
/// entries, have the same report.
pub proof fn same_input_same_report(
    first: Vec<Track>,
    first_map: Trackmap,
    second: Vec<Track>,
    second_map: Trackmap,
)
    requires
        track_views(first@) == track_views(second@),
        first_map@ == second_map@,
    ensures
        duplicate_report(track_views(first@), first_map@) == duplicate_report(
            track_views(second@),
            second_map@,
        ),
{
}

/// Whether one of `aliases` is among `recorded`.
pub fn any_alias_recorded(aliases: &Vec<String>, recorded: &Vec<String>) -> (found: bool)
    ensures
        found == alias_recorded(texts(aliases@), texts(recorded@)),
{
    let mut i: usize = 0;
    while i < aliases.len()
        invariant
            i <= aliases.len(),
            forall|j: int| 0 <= j < i ==> !texts(recorded@).contains(#[trigger] texts(aliases@)[j]),
        decreases aliases.len() - i,
    {
        if contains_text(recorded, &aliases[i]) {
            assert(texts(recorded@).contains(texts(aliases@)[i as int]));
            return true;
        }
        i += 1;
    }
    false
}

/// The place of the group named `name` among `groups`.
fn find_group(groups: &Vec<DuplicateGroup>, name: &String) -> (place: Option<usize>)
    ensures
        match place {
            Some(k) => k < groups.len() && groups[k as int].name@ == name@,
            None => forall|j: int| 0 <= j < groups.len() ==> groups[j].name@ != name@,
        },
{
    let mut i: usize = 0;
    while i < groups.len()
        invariant
            i <= groups.len(),
            forall|j: int| 0 <= j < i ==> groups[j].name@ != name@,
        decreases groups.len() - i,
    {
        if groups[i].name == *name {
            return Some(i);
        }
        i += 1;
    }
    None
}

/// Groups the identifiers of `tracks` by track name, leaving out what the
/// table declares to be known.
pub fn group_by_name(tracks: &Vec<Track>, trackmap: &Trackmap) -> (groups: Vec<DuplicateGroup>)
    ensures
        group_views(groups@) == all_groups(track_views(tracks@), trackmap@),
{
    let mut groups: Vec<DuplicateGroup> = Vec::new();
    let mut i: usize = 0;
    while i < tracks.len()
        invariant
            i <= tracks.len(),
            group_views(groups@) == all_groups(track_views(tracks@).take(i as int), trackmap@),
        decreases tracks.len() - i,
    {
        let ghost all = track_views(tracks@);
        let ghost read = all.take(i as int);
        let ghost next = all.take(i + 1);
        let ghost table = trackmap@;
        let track = &tracks[i];
        proof {
            assert(next.drop_last() == read);
            assert(next.last() == track@);
            names_seen_is_exact(read);
            assert(groups@.len() == names_seen(read).len()) by {
                assert(group_views(groups@).len() == all_groups(read, table).len());
            }
            assert forall|p: int| 0 <= p < groups@.len() implies #[trigger] groups@[p].name@
                == names_seen(read)[p] by {
                assert(group_views(groups@)[p] == all_groups(read, table)[p]);
            }
        }
        let place = find_group(&groups, &track.name);
        proof {
            if place is Some {
                assert(names_seen(read)[place.unwrap() as int] == track.name@);
                assert(names_seen(read).contains(track.name@));
            } else {
                if names_seen(read).contains(track.name@) {
                    let p = choose|p: int|
                        0 <= p < names_seen(read).len() && names_seen(read)[p] == track.name@;
                    assert(groups@[p].name@ == track.name@);
                }
                assert(!names_seen(read).contains(track.name@));
            }
        }
        let k: usize = match place {
            Some(k) => k,
            None => {
                proof {
                    assert forall|j: int| 0 <= j < read.len() implies #[trigger] read[j].name
                        != track.name@ by {
                        assert(names_seen(read).contains(read[j].name));
                    }
                    absent_name_records_nothing(read, track.name@, aliases_of(table, track.name@));
                }
                groups.push(DuplicateGroup { name: track.name.clone(), ids: Vec::new() });
                assert(texts(groups@.last().ids@) == Seq::<Seq<char>>::empty());
                groups.len() - 1
            },
        };
        let ghost names = names_seen(next);
        proof {
            assert(groups@.len() == names.len());
            assert(names[k as int] == track.name@) by {
                if place is Some {
                    assert(group_views(groups@)[k as int].name == track.name@);
                }
            }
            assert(texts(groups@[k as int].ids@) == recorded_ids(
                read,
                track.name@,
                aliases_of(table, track.name@),
            )) by {
                if place is Some {
                    assert(group_views(groups@)[k as int].ids == texts(groups@[k as int].ids@));
                }
            }
        }
        let ghost staged = groups@;
        let known = contains_text(&groups[k].ids, &track.id) || match trackmap.get(&track.name) {
            Some(aliases) => any_alias_recorded(&aliases.ids, &groups[k].ids),
            None => false,
        };
        proof {
            let aliases = aliases_of(table, track.name@);
            let before = recorded_ids(read, track.name@, aliases);
            assert(known == !admits(before, aliases, track.id@));
        }
        if !known {
            let ghost before = texts(groups@[k as int].ids@);
            groups[k].ids.push(track.id.clone());
            assert(texts(groups@[k as int].ids@) == before.push(track.id@));
        }
        proof {
            names_seen_is_exact(next);
            let now = group_views(groups@);
            let goal = all_groups(next, table);
            assert forall|j: int| 0 <= j < now.len() implies now[j] == goal[j] by {
                assert(groups@[j].name@ == staged[j].name@);
                if j == k {
                } else {
                    assert(groups@[j] == staged[j]);
                    assert(names[j] != names[k as int]);
                    if j < names_seen(read).len() {
                        assert(group_views(staged)[j] == all_groups(read, table)[j]) by {
                            if place is None {
                                assert(staged.drop_last()[j] == staged[j]);
                            }
                        }
                    }
                }
            }
            assert(now == goal);
        }
        i += 1;
    }
    assert(track_views(tracks@).take(i as int) == track_views(tracks@));
    groups
}

/// A copy of `list`.
fn copy_texts(list: &Vec<String>) -> (copy: Vec<String>)
    ensures
        texts(copy@) == texts(list@),
{
    let mut copy: Vec<String> = Vec::new();
    let mut i: usize = 0;
    while i < list.len()
        invariant
            i <= list.len(),
            texts(copy@) == texts(list@).take(i as int),
        decreases list.len() - i,
    {
        copy.push(list[i].clone());
        assert(texts(copy@) == texts(list@).take(i as int).push(list@[i as int]@));
        i += 1;
    }
    assert(texts(list@).take(i as int) == texts(list@));
    copy
}

/// Keeps the groups that hold more than one identifier.
pub fn keep_duplicates(groups: &Vec<DuplicateGroup>) -> (report: DuplicateReport)
    ensures
        report@ == with_duplicates(group_views(groups@)),
{
    let ghost all = group_views(groups@);
    let mut kept: Vec<DuplicateGroup> = Vec::new();
    let mut i: usize = 0;
    while i < groups.len()
        invariant
            i <= groups.len(),
            all == group_views(groups@),
            group_views(kept@) == with_duplicates(all.take(i as int)),
        decreases groups.len() - i,
    {
        proof {
            assert(all.take(i + 1).drop_last() == all.take(i as int));
            assert(all.take(i + 1).last() == groups@[i as int]@);
        }
        let group = &groups[i];
        if group.ids.len() > 1 {
            let ghost before = group_views(kept@);
            kept.push(DuplicateGroup { name: group.name.clone(), ids: copy_texts(&group.ids) });
            assert(group_views(kept@) == before.push(group@));
        }
        i += 1;
    }
    assert(all.take(i as int) == all);
    DuplicateReport { groups: kept }
}

/// Reports the tracks that `tracks` holds more than once: for each track
/// name, the distinct identifiers met under it, in the order of their first
/// occurrence, where more than one is left. An identifier is left out if
/// one of the identifiers that the table gives for its name has been
/// recorded under that name before it.
pub fn detect(tracks: &Vec<Track>, trackmap: &Trackmap) -> (report: DuplicateReport)
    ensures
        report@ == duplicate_report(track_views(tracks@), trackmap@),
{
    let groups = group_by_name(tracks, trackmap);
    keep_duplicates(&groups)
}

} // verus!
