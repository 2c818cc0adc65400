//! The files the installer downloads, and the order in which it checks and
//! fetches them.

use vstd::prelude::*;
use vstd::string::*;
use crate::paths::{data_dir, join_path, path_join};

verus! {

/// The game archives that the server needs, each with its MD5 sum.
pub open spec fn base_files() -> Seq<(Seq<char>, Seq<char>)> {
    seq![
        ("localized_english_pak0.pk3"@, "f103bd8e20785ecaed1fed5be0c0fe16"@),
        ("localized_english_pak1.pk3"@, "d2d481075ab68cb579693501a0b5e900"@),
        ("pak0.pk3"@, "03b8bd99d7a5ba7d02a456cbe83fc1a9"@),
        ("pak1.pk3"@, "88d699f4b6a4dd0af5dc42711205c192"@),
        ("pak2.pk3"@, "4079eee442ad0b649e97a5f9258cbc2a"@),
        ("pak3.pk3"@, "61db72b5728fb70b0f2b4d0f1ef4c804"@),
        ("pak4.pk3"@, "c077d4be6cb56e88417f58b516690fb9"@),
        ("pak5.pk3"@, "0cb20baa66ddecc72ccb7f17b3062bb3"@),
        ("pak6.pk3"@, "d8b721be71c0f21fc98901c12cccf3ec"@),
    ]
}

/// The address the game archives are downloaded from, before the file name.
pub open spec fn base_files_url() -> Seq<char> {
    "https://de.dvotx.org/dump/cod1/basefiles/"@
}

/// The dedicated server archive: its name, address and MD5 sum.
pub open spec fn server_archive() -> (Seq<char>, Seq<char>, Seq<char>) {
    (
        "cod-lnxded-1.1d.tar.bz2"@,
        "https://de.dvotx.org/dump/cod1/cod-lnxded-1.1d.tar.bz2"@,
        "5269ed44b0da8692cd5e61c76b6823d7"@,
    )
}

/// A file to fetch: where from, where to, and the MD5 sum it must have.
pub struct Download {
    pub url: String,
    pub path: String,
    pub md5: String,
}

pub open spec fn download_view(d: Download) -> (Seq<char>, Seq<char>, Seq<char>) {
    (d.url@, d.path@, d.md5@)
}

/// The downloads in the order the installer makes them, given the home
/// directory: the game archives into `main` under the data directory, then
/// the server archive into the data directory.
pub open spec fn downloads_of(home: Seq<char>) -> Seq<(Seq<char>, Seq<char>, Seq<char>)> {
    base_files().map_values(
        |f: (Seq<char>, Seq<char>)|
            (base_files_url() + f.0, path_join(path_join(data_dir(home), "main"@), f.0), f.1),
    ) + seq![
        (
            server_archive().1,
            path_join(data_dir(home), server_archive().0),
            server_archive().2,
        ),
    ]
}

/// The game archives with their MD5 sums.
pub fn base_file_table() -> (t: Vec<(&'static str, &'static str)>)
    ensures
        t@.map_values(|p: (&'static str, &'static str)| (p.0@, p.1@)) == base_files(),
{
    let mut t: Vec<(&'static str, &'static str)> = Vec::new();
    t.push(("localized_english_pak0.pk3", "f103bd8e20785ecaed1fed5be0c0fe16"));
    t.push(("localized_english_pak1.pk3", "d2d481075ab68cb579693501a0b5e900"));
    t.push(("pak0.pk3", "03b8bd99d7a5ba7d02a456cbe83fc1a9"));
    t.push(("pak1.pk3", "88d699f4b6a4dd0af5dc42711205c192"));
    t.push(("pak2.pk3", "4079eee442ad0b649e97a5f9258cbc2a"));
    t.push(("pak3.pk3", "61db72b5728fb70b0f2b4d0f1ef4c804"));
    t.push(("pak4.pk3", "c077d4be6cb56e88417f58b516690fb9"));
    t.push(("pak5.pk3", "0cb20baa66ddecc72ccb7f17b3062bb3"));
    t.push(("pak6.pk3", "d8b721be71c0f21fc98901c12cccf3ec"));
    assert(t@.map_values(|p: (&'static str, &'static str)| (p.0@, p.1@)) =~= base_files());
    t
}

/// The downloads, in order, for the home directory `home`.
pub fn download_list(home: &str) -> (r: Vec<Download>)
    ensures
        r@.map_values(|d: Download| download_view(d)) == downloads_of(home@),
{
    let table = base_file_table();
    let ghost tv = table@.map_values(|p: (&'static str, &'static str)| (p.0@, p.1@));
    let data = join_path(home, ".local/share/orbix");
    let main = join_path(data.as_str(), "main");
    let mut out: Vec<Download> = Vec::new();
    let mut i: usize = 0;
    while i < table.len()
        invariant
            tv == table@.map_values(|p: (&'static str, &'static str)| (p.0@, p.1@)),
            tv == base_files(),
            data@ == data_dir(home@),
            main@ == path_join(data_dir(home@), "main"@),
            i <= table.len(),
            out@.len() == i,
            forall|j: int|
                0 <= j < i ==> #[trigger] download_view(out@[j]) == (
                    base_files_url() + tv[j].0,
                    path_join(main@, tv[j].0),
                    tv[j].1,
                ),
        decreases table.len() - i,
    {
        let (name, sum) = table[i];
        assert((name@, sum@) == tv[i as int]);
        let mut url = String::from_str("https://de.dvotx.org/dump/cod1/basefiles/");
        url.append(name);
        let path = join_path(main.as_str(), name);
        out.push(Download { url, path, md5: String::from_str(sum) });
        i = i + 1;
    }
    let path = join_path(data.as_str(), "cod-lnxded-1.1d.tar.bz2");
    out.push(
        Download {
            url: String::from_str("https://de.dvotx.org/dump/cod1/cod-lnxded-1.1d.tar.bz2"),
            path,
            md5: String::from_str("5269ed44b0da8692cd5e61c76b6823d7"),
        },
    );
    assert(out@.map_values(|d: Download| download_view(d)) =~= downloads_of(home@));
    out
}

/// Every game archive is checked against its own published MD5 sum: there
/// are nine archives, each named once, and whichever entry is named after an
/// archive carries that archive's sum.
pub proof fn law_base_file_sums()
    ensures
        base_files().len() == 9,
        forall|i: int|
            0 <= i < base_files().len() && #[trigger] base_files()[i].0 == "localized_english_pak0.pk3"@ ==> base_files()[i].1
                == "f103bd8e20785ecaed1fed5be0c0fe16"@,
        forall|i: int|
            0 <= i < base_files().len() && #[trigger] base_files()[i].0 == "localized_english_pak1.pk3"@ ==> base_files()[i].1
                == "d2d481075ab68cb579693501a0b5e900"@,
        forall|i: int|
            0 <= i < base_files().len() && #[trigger] base_files()[i].0 == "pak0.pk3"@ ==> base_files()[i].1
                == "03b8bd99d7a5ba7d02a456cbe83fc1a9"@,
        forall|i: int|
            0 <= i < base_files().len() && #[trigger] base_files()[i].0 == "pak1.pk3"@ ==> base_files()[i].1
                == "88d699f4b6a4dd0af5dc42711205c192"@,
        forall|i: int|
            0 <= i < base_files().len() && #[trigger] base_files()[i].0 == "pak2.pk3"@ ==> base_files()[i].1
                == "4079eee442ad0b649e97a5f9258cbc2a"@,
        forall|i: int|
            0 <= i < base_files().len() && #[trigger] base_files()[i].0 == "pak3.pk3"@ ==> base_files()[i].1
                == "61db72b5728fb70b0f2b4d0f1ef4c804"@,
        forall|i: int|
            0 <= i < base_files().len() && #[trigger] base_files()[i].0 == "pak4.pk3"@ ==> base_files()[i].1
                == "c077d4be6cb56e88417f58b516690fb9"@,
        forall|i: int|
            0 <= i < base_files().len() && #[trigger] base_files()[i].0 == "pak5.pk3"@ ==> base_files()[i].1
                == "0cb20baa66ddecc72ccb7f17b3062bb3"@,
        forall|i: int|
            0 <= i < base_files().len() && #[trigger] base_files()[i].0 == "pak6.pk3"@ ==> base_files()[i].1
                == "d8b721be71c0f21fc98901c12cccf3ec"@,
        forall|i: int, j: int|
            0 <= i < j < base_files().len() ==> #[trigger] base_files()[i].0 != #[trigger] base_files()[j].0,
        server_archive().0 == "cod-lnxded-1.1d.tar.bz2"@,
        server_archive().2 == "5269ed44b0da8692cd5e61c76b6823d7"@,
{
    reveal_strlit("localized_english_pak0.pk3");
    reveal_strlit("localized_english_pak1.pk3");
    reveal_strlit("pak0.pk3");
    reveal_strlit("pak1.pk3");
    reveal_strlit("pak2.pk3");
    reveal_strlit("pak3.pk3");
    reveal_strlit("pak4.pk3");
    reveal_strlit("pak5.pk3");
    reveal_strlit("pak6.pk3");
    let names = seq!["localized_english_pak0.pk3"@, "localized_english_pak1.pk3"@, "pak0.pk3"@, "pak1.pk3"@, "pak2.pk3"@, "pak3.pk3"@, "pak4.pk3"@, "pak5.pk3"@, "pak6.pk3"@];
    assert forall|i: int| 0 <= i < 9 implies #[trigger] base_files()[i].0 == names[i] by {}
    // The names differ in their length or in one of their first characters.
    assert forall|i: int, j: int| 0 <= i < j < 9 implies #[trigger] names[i] != #[trigger] names[j] by {
        if i < 2 && j < 2 {
            assert(names[i][21] != names[j][21]);
        } else if i < 2 {
            assert(names[i].len() != names[j].len());
        } else {
            assert(names[i][3] != names[j][3]);
        }
    }
}

/// What the installer learns while fetching.
#[derive(Clone, Copy, PartialEq, Eq, Debug, Structural)]
pub enum FetchEvent {
    /// Nothing is fetched yet.
    Started,
    /// The file of download `index` was checked: `valid` tells whether it
    /// exists and has the expected MD5 sum.
    Checked { index: usize, valid: bool },
    /// Download `index` was fetched again.
    Downloaded { index: usize },
}

/// What the installer does next.
#[derive(Clone, Copy, PartialEq, Eq, Debug, Structural)]
pub enum FetchAction {
    /// Check the file of download `index` against its MD5 sum.
    Check { index: usize },
    /// Fetch download `index`.
    Download { index: usize },
    /// Every file is in place.
    Finished,
}

/// The next action for `count` downloads: they are checked in order; a file
/// that fails its check is fetched and checked again; a file that passes
/// moves on to the next one, and after the last one all is done.
pub open spec fn next_fetch(count: usize, event: FetchEvent) -> FetchAction {
    match event {
        FetchEvent::Started => if count == 0 {
            FetchAction::Finished
        } else {
            FetchAction::Check { index: 0 }
        },
        FetchEvent::Checked { index, valid } => if !valid {
            FetchAction::Download { index }
        } else if index + 1 < count {
            FetchAction::Check { index: (index + 1) as usize }
        } else {
            FetchAction::Finished
        },
        FetchEvent::Downloaded { index } => FetchAction::Check { index },
    }
}

/// An event that can follow an action of a plan for `count` downloads.
pub open spec fn event_in_range(count: usize, event: FetchEvent) -> bool {
    match event {
        FetchEvent::Started => true,
        FetchEvent::Checked { index, .. } => index < count,
        FetchEvent::Downloaded { index } => index < count,
    }
}

/// The action that follows `event` when there are `count` downloads.
pub fn next_fetch_action(count: usize, event: FetchEvent) -> (a: FetchAction)
    requires
        event_in_range(count, event),
    ensures
        a == next_fetch(count, event),
{
    match event {
        FetchEvent::Started => if count == 0 {
            FetchAction::Finished
        } else {
            FetchAction::Check { index: 0 }
        },
        FetchEvent::Checked { index, valid } => if !valid {
            FetchAction::Download { index }
        } else if index + 1 < count {
            FetchAction::Check { index: index + 1 }
        } else {
            FetchAction::Finished
        },
        FetchEvent::Downloaded { index } => FetchAction::Check { index },
    }
}

/// The actions taken, in order, when the checks are answered by `results`
/// one after the other: a failed check is followed by a download of the
/// same file and a new check of it; answers given after the plan finished
/// change nothing.
pub open spec fn fetch_trace(count: usize, results: Seq<bool>) -> Seq<FetchAction>
    decreases results.len(),
{
    if results.len() == 0 {
        seq![next_fetch(count, FetchEvent::Started)]
    } else {
        let prev = fetch_trace(count, results.drop_last());
        match prev.last() {
            FetchAction::Check { index } => match next_fetch(
                count,
                FetchEvent::Checked { index, valid: results.last() },
            ) {
                FetchAction::Download { index: j } => prev + seq![
                    FetchAction::Download { index: j },
                    next_fetch(count, FetchEvent::Downloaded { index: j }),
                ],
                other => prev.push(other),
            },
            _ => prev,
        }
    }
}

/// How many of the outcomes are passed checks.
pub open spec fn passed_checks(results: Seq<bool>) -> nat
    decreases results.len(),
{
    if results.len() == 0 {
        0
    } else {
        passed_checks(results.drop_last()) + if results.last() {
            1nat
        } else {
            0nat
        }
    }
}

/// Fetching never skips a file: the file being checked is always the first
/// one that has not passed its check yet; a download of a file comes right
/// after a check of that same file and is followed by a new check of it;
/// there is a download only if some check failed; and the plan finishes only
/// once every file has passed.
pub proof fn law_fetch_checks_every_file(count: usize, results: Seq<bool>)
    ensures
        fetch_trace(count, results).len() > 0,
        fetch_trace(count, results).last() matches FetchAction::Check { index } ==> index
            == passed_checks(results) && index < count,
        fetch_trace(count, results).last() is Finished ==> passed_checks(results) >= count,
        forall|k: int|
            #![trigger fetch_trace(count, results)[k]]
            0 <= k < fetch_trace(count, results).len() && fetch_trace(count, results)[k] is Download
                ==> {
                let j = fetch_trace(count, results)[k]->Download_index;
                &&& 0 < k < fetch_trace(count, results).len() - 1
                &&& fetch_trace(count, results)[k - 1] == FetchAction::Check { index: j }
                &&& fetch_trace(count, results)[k + 1] == FetchAction::Check { index: j }
            },
        (exists|k: int|
            0 <= k < fetch_trace(count, results).len() && #[trigger] fetch_trace(
                count,
                results,
            )[k] is Download) ==> exists|i: int| 0 <= i < results.len() && !#[trigger] results[i],
    decreases results.len(),
{
    if results.len() > 0 {
        let prev = fetch_trace(count, results.drop_last());
        law_fetch_checks_every_file(count, results.drop_last());
        let t = fetch_trace(count, results);
        assert(results.drop_last().len() < results.len());
        assert forall|k: int| 0 <= k < t.len() && #[trigger] t[k] is Download implies {
            let j = t[k]->Download_index;
            &&& 0 < k < t.len() - 1
            &&& t[k - 1] == FetchAction::Check { index: j }
            &&& t[k + 1] == FetchAction::Check { index: j }
        } by {
            if k < prev.len() {
                assert(t[k] == prev[k]);
                assert(t[k - 1] == prev[k - 1]);
                assert(t[k + 1] == prev[k + 1]);
            }
        }
        if exists|k: int| 0 <= k < t.len() && #[trigger] t[k] is Download {
            let k = choose|k: int| 0 <= k < t.len() && #[trigger] t[k] is Download;
            if k < prev.len() {
                assert(prev[k] is Download);
                let i = choose|i: int| 0 <= i < results.drop_last().len() && !#[trigger] results.drop_last()[i];
                assert(results[i] == results.drop_last()[i]);
            } else {
                assert(!results[results.len() - 1]);
            }
        }
    }
}

proof fn lemma_intact_prefix(count: usize, results: Seq<bool>, m: int)
    requires
        0 <= m <= count,
        count > 0,
        results.len() == count,
        forall|i: int| 0 <= i < count ==> #[trigger] results[i],
    ensures
        m < count ==> fetch_trace(count, results.subrange(0, m)) == Seq::new(
            (m + 1) as nat,
            |i: int| FetchAction::Check { index: i as usize },
        ),
        m == count ==> fetch_trace(count, results.subrange(0, m)) == Seq::new(
            count as nat,
            |i: int| FetchAction::Check { index: i as usize },
        ).push(FetchAction::Finished),
    decreases m,
{
    let r = results.subrange(0, m);
    if m == 0 {
        assert(r.len() == 0);
        assert(fetch_trace(count, r) =~= Seq::new(1, |i: int| FetchAction::Check { index: i as usize }));
    } else {
        lemma_intact_prefix(count, results, m - 1);
        assert(r.drop_last() =~= results.subrange(0, m - 1));
        let prev = Seq::new(m as nat, |i: int| FetchAction::Check { index: i as usize });
        assert(fetch_trace(count, r.drop_last()) == prev);
        assert(prev.last() == FetchAction::Check { index: (m - 1) as usize });
        assert(r.last() == results[m - 1]);
        assert(results[m - 1]);
        if m < count {
            assert(prev.push(FetchAction::Check { index: m as usize }) =~= Seq::new(
                (m + 1) as nat,
                |i: int| FetchAction::Check { index: i as usize },
            ));
        }
    }
}

/// A run over files that are all intact downloads nothing: when every check
/// passes, the plan checks each file once, in order, and finishes.
pub proof fn law_fetch_intact_run_downloads_nothing(count: usize, results: Seq<bool>)
    requires
        results.len() == count,
        forall|i: int| 0 <= i < count ==> #[trigger] results[i],
    ensures
        fetch_trace(count, results) == Seq::new(
            count as nat,
            |i: int| FetchAction::Check { index: i as usize },
        ).push(FetchAction::Finished),
        forall|k: int|
            0 <= k < fetch_trace(count, results).len() ==> !(
            #[trigger] fetch_trace(count, results)[k] is Download),
{
    if count == 0 {
        assert(results.len() == 0);
        assert(fetch_trace(count, results) =~= Seq::new(
            count as nat,
            |i: int| FetchAction::Check { index: i as usize },
        ).push(FetchAction::Finished));
    } else {
        lemma_intact_prefix(count, results, count as int);
        assert(results.subrange(0, count as int) =~= results);
    }
}

} // verus!
