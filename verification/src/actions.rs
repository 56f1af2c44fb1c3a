//! The decision parts of the command actions: fanning a backup out over
//! the active repositories, selecting which repositories a check covers,
//! trimming archive listings, generating systemd units, and building the
//! exact argument vectors the engine processes are started with.
use vstd::prelude::*;

use crate::coordination::CompletionCounter;
use crate::profiles::{active_repos_of, BorgError, Passphrase, Profile, Repository};
use crate::strutil::{str_eq, timestamp_spec};
use crate::types::Archive;

verus! {

/// A backup job fanned out over the active repositories: the archive name
/// every repository receives, and the repositories themselves. The
/// supervisor waits for as many completion signals as there are entries.
pub struct BackupPlan {
    pub archive_name: String,
    pub repositories: Vec<Repository>,
}

/// Plans one backup run: the archive is named after the profile and the
/// moment the backup started, and one task is planned per active
/// (non-disabled) repository, in configuration order.
pub fn plan_backup(
    profile: &Profile,
    year: u64,
    month: u64,
    day: u64,
    hour: u64,
    minute: u64,
    second: u64,
) -> (r: BackupPlan)
    ensures
        r.archive_name@ == profile@.name + seq!['-'] + timestamp_spec(
            year as nat,
            month as nat,
            day as nat,
            hour as nat,
            minute as nat,
            second as nat,
        ),
        r.repositories@.map_values(|x: Repository| x@) == active_repos_of(profile@.repos),
{
    let archive_name = crate::strutil::archive_name(
        profile.name(),
        year,
        month,
        day,
        hour,
        minute,
        second,
    );
    let repositories = profile.active_repositories();
    BackupPlan { archive_name, repositories }
}

/// The completion counter a backup plan's supervisor waits on: one unit
/// is expected per planned repository, none has arrived yet.
pub fn completion_counter_for(plan: &BackupPlan) -> (r: CompletionCounter)
    ensures
        r.expected() == plan.repositories@.len(),
        r.completed() == 0,
        r.wf(),
{
    CompletionCounter::new(plan.repositories.len() as u64)
}

/// Whether some string of the list holds exactly these characters.
pub open spec fn contains_str(list: Seq<Seq<char>>, s: Seq<char>) -> bool {
    exists|i: int| 0 <= i < list.len() && #[trigger] list[i] == s
}

fn vec_contains_str(list: &Vec<String>, s: &str) -> (r: bool)
    ensures
        r == contains_str(list@.map_values(|x: String| x@), s@),
{
    let ghost lv = list@.map_values(|x: String| x@);
    let mut i: usize = 0;
    while i < list.len()
        invariant
            i <= list.len(),
            lv == list@.map_values(|x: String| x@),
            lv.len() == list.len(),
            forall|j: int| 0 <= j < i ==> #[trigger] lv[j] != s@,
        decreases list.len() - i,
    {
        proof {
            assert(lv[i as int] == list@[i as int]@);
        }
        if str_eq(list[i].as_str(), s) {
            return true;
        }
        i = i + 1;
    }
    false
}

/// One repository's part in a multi-repository check: the repository, and
/// whether it was explicitly excluded from this run (a skipped repository
/// counts as trivially healthy and still signals completion).
pub struct CheckTask {
    pub repository: Repository,
    pub skipped: bool,
}

/// Plans a check over the active repositories: every active repository
/// gets a task; a task is marked skipped exactly when a restriction list
/// is given and does not name the repository's path.
pub fn plan_checks(profile: &Profile, only_these_repos: &Option<Vec<String>>) -> (r: Vec<CheckTask>)
    ensures
        r@.map_values(|t: CheckTask| t.repository@) == active_repos_of(profile@.repos),
        forall|i: int|
            0 <= i < r@.len() ==> (#[trigger] r@[i]).skipped == (match only_these_repos {
                Some(list) => !contains_str(
                    list@.map_values(|x: String| x@),
                    r@[i].repository@.path,
                ),
                None => false,
            }),
{
    let active = profile.active_repositories();
    let ghost av = active_repos_of(profile@.repos);
    let mut out: Vec<CheckTask> = Vec::new();
    let mut i: usize = 0;
    proof {
        assert(out@.map_values(|t: CheckTask| t.repository@) =~= av.take(0));
        assert(active@.map_values(|x: Repository| x@).take(0) =~= av.take(0));
    }
    while i < active.len()
        invariant
            i <= active.len(),
            av == active_repos_of(profile@.repos),
            active@.map_values(|x: Repository| x@) == av,
            av.len() == active.len(),
            out@.len() == i,
            out@.map_values(|t: CheckTask| t.repository@) == av.take(i as int),
            forall|j: int|
                0 <= j < i ==> (#[trigger] out@[j]).skipped == (match only_these_repos {
                    Some(list) => !contains_str(
                        list@.map_values(|x: String| x@),
                        out@[j].repository@.path,
                    ),
                    None => false,
                }),
        decreases active.len() - i,
    {
        let ghost prev = out@.map_values(|t: CheckTask| t.repository@);
        proof {
            assert(av[i as int] == active@[i as int]@);
        }
        let skipped = match only_these_repos {
            Some(list) => !vec_contains_str(list, active[i].path.as_str()),
            None => false,
        };
        let task = CheckTask { repository: active[i].duplicate(), skipped };
        out.push(task);
        proof {
            assert(out@.map_values(|t: CheckTask| t.repository@) =~= prev.push(av[i as int]));
            assert(av.take(i + 1) =~= av.take(i as int).push(av[i as int]));
        }
        i = i + 1;
    }
    proof {
        assert(av.take(av.len() as int) =~= av);
    }
    out
}

/// A required passphrase: some engines refuse to work without one.
pub fn require_passphrase(passphrase: Option<Passphrase>) -> (r: Result<Passphrase, BorgError>)
    ensures
        match r {
            Ok(p) => passphrase matches Some(q) && p@ == q@,
            Err(e) => passphrase is None && e == BorgError::PassphraseMissing,
        },
{
    match passphrase {
        Some(p) => Ok(p),
        None => Err(BorgError::PassphraseMissing),
    }
}

/// How many archives a listing leaves out at the front: none when all
/// archives are wanted, else everything but the last `count`.
pub fn archives_to_skip(num_archives: usize, all: bool, count: usize) -> (r: usize)
    ensures
        r == (if all {
            0
        } else if num_archives >= count {
            num_archives - count
        } else {
            0
        }),
{
    if all {
        0
    } else if num_archives >= count {
        num_archives - count
    } else {
        0
    }
}

/// The archives a listing shows: the last `count` of them (most recent
/// last), or all of them when `all` is set.
pub fn latest_archives(archives: &Vec<Archive>, all: bool, count: usize) -> (r: Vec<Archive>)
    ensures
        r@.map_values(|a: Archive| a@) == archives@.map_values(|a: Archive| a@).skip(
            archives_to_skip_spec(archives@.len() as int, all, count as int),
        ),
{
    let to_skip = archives_to_skip(archives.len(), all, count);
    let ghost av = archives@.map_values(|a: Archive| a@);
    let mut out: Vec<Archive> = Vec::new();
    let mut i: usize = to_skip;
    proof {
        assert(out@.map_values(|a: Archive| a@) =~= av.subrange(to_skip as int, to_skip as int));
    }
    while i < archives.len()
        invariant
            to_skip <= i <= archives.len() || (i == to_skip && to_skip >= archives.len()),
            av == archives@.map_values(|a: Archive| a@),
            av.len() == archives.len(),
            to_skip <= av.len(),
            out@.map_values(|a: Archive| a@) == av.subrange(to_skip as int, i as int),
        decreases archives.len() - i,
    {
        let ghost prev = out@.map_values(|a: Archive| a@);
        proof {
            assert(av[i as int] == archives@[i as int]@);
        }
        out.push(archives[i].duplicate());
        proof {
            assert(out@.map_values(|a: Archive| a@) =~= prev.push(av[i as int]));
            assert(av.subrange(to_skip as int, i + 1) =~= av.subrange(to_skip as int, i as int).push(
                av[i as int],
            ));
        }
        i = i + 1;
    }
    proof {
        assert(av.subrange(to_skip as int, av.len() as int) =~= av.skip(to_skip as int));
        if to_skip >= av.len() {
            assert(out@.map_values(|a: Archive| a@) =~= av.skip(to_skip as int));
        }
    }
    out
}

/// The skip count as a spec value.
pub open spec fn archives_to_skip_spec(num_archives: int, all: bool, count: int) -> int {
    if all {
        0
    } else if num_archives >= count {
        num_archives - count
    } else {
        0
    }
}

/// The systemd parameters of a scheduled unit: the subcommand it runs,
/// the calendar it runs on, and the unit file's extension.
pub fn systemd_unit_params(check_unit: bool, timer: bool) -> (r: (
    &'static str,
    &'static str,
    &'static str,
))
    ensures
        check_unit ==> r.0@ == "check"@ && r.1@ == "monthly"@,
        !check_unit ==> r.0@ == "create"@ && r.1@ == "*-*-* 21:00:00"@,
        timer ==> r.2@ == "timer"@,
        !timer ==> r.2@ == "service"@,
{
    let action_calendar = if check_unit {
        ("check", "monthly")
    } else {
        ("create", "*-*-* 21:00:00")
    };
    let extension = if timer {
        "timer"
    } else {
        "service"
    };
    (action_calendar.0, action_calendar.1, extension)
}

/// The text of a systemd unit: a timer unit that runs the action on a
/// calendar, or a service unit that runs it once for the profile.
pub fn generate_system_unit(profile_name: &str, timer: bool, action: &str, calendar: &str) -> (r:
    String)
    ensures
        timer ==> r@ == "[Unit]\nDescription=Run BorgTUI "@ + action@ + " on a schedule (\""@
            + calendar@ + "\")\n\n[Timer]\nOnCalendar="@ + calendar@
            + "\nPersistent=true\n\n[Install]\nWantedBy=timers.target"@,
        !timer ==> r@ == "[Unit]\nDescription=BorgTUI "@ + action@ + " for profile `"@
            + profile_name@ + "`\n\n[Service]\nType=simple\nExecStart=borgtui -p "@ + profile_name@
            + " "@ + action@ + "\n\n[Install]\nWantedBy=default.target\n"@,
{
    if timer {
        let mut s = "[Unit]\nDescription=Run BorgTUI ".to_owned();
        s.append(action);
        s.append(" on a schedule (\"");
        s.append(calendar);
        s.append("\")\n\n[Timer]\nOnCalendar=");
        s.append(calendar);
        s.append("\nPersistent=true\n\n[Install]\nWantedBy=timers.target");
        s
    } else {
        let mut s = "[Unit]\nDescription=BorgTUI ".to_owned();
        s.append(action);
        s.append(" for profile `");
        s.append(profile_name);
        s.append("`\n\n[Service]\nType=simple\nExecStart=borgtui -p ");
        s.append(profile_name);
        s.append(" ");
        s.append(action);
        s.append("\n\n[Install]\nWantedBy=default.target\n");
        s
    }
}

/// The negated glob a rustic filter expects for each exclude pattern.
pub fn negated_globs(patterns: &Vec<String>) -> (r: Vec<String>)
    ensures
        r@.len() == patterns@.len(),
        forall|i: int|
            0 <= i < r@.len() ==> (#[trigger] r@[i])@ == seq!['!'] + (patterns@[i])@,
{
    proof {
        reveal_strlit("!");
    }
    let mut out: Vec<String> = Vec::new();
    let mut i: usize = 0;
    while i < patterns.len()
        invariant
            i <= patterns.len(),
            out@.len() == i,
            forall|j: int|
                0 <= j < i ==> (#[trigger] out@[j])@ == seq!['!'] + (patterns@[j])@,
        decreases patterns.len() - i,
    {
        let mut s = "!".to_owned();
        s.append(patterns[i].as_str());
        proof {
            reveal_strlit("!");
            assert("!"@ =~= seq!['!']);
        }
        out.push(s);
        i = i + 1;
    }
    out
}

/// Each backup path wrapped in single quotes, the shape the borg engine's
/// create call expects.
pub fn quoted_paths(paths: &Vec<String>) -> (r: Vec<String>)
    ensures
        r@.len() == paths@.len(),
        forall|i: int|
            0 <= i < r@.len() ==> (#[trigger] r@[i])@ == seq!['\''] + (paths@[i])@ + seq!['\''],
{
    let mut out: Vec<String> = Vec::new();
    let mut i: usize = 0;
    while i < paths.len()
        invariant
            i <= paths.len(),
            out@.len() == i,
            forall|j: int|
                0 <= j < i ==> (#[trigger] out@[j])@ == seq!['\''] + (paths@[j])@ + seq!['\''],
        decreases paths.len() - i,
    {
        let mut s = "'".to_owned();
        s.append(paths[i].as_str());
        s.append("'");
        proof {
            reveal_strlit("'");
            assert("'"@ =~= seq!['\'']);
        }
        out.push(s);
        i = i + 1;
    }
    out
}

/// The pair of arguments that excludes one pattern from a restic backup.
pub open spec fn exclude_args(patterns: Seq<Seq<char>>) -> Seq<Seq<char>>
    decreases patterns.len(),
{
    if patterns.len() == 0 {
        Seq::empty()
    } else {
        exclude_args(patterns.drop_last()) + seq!["--exclude"@, patterns.last()]
    }
}

/// The argument vector of a restic backup invocation: the subcommand, the
/// repository, JSON output, every source path, the tag, an exclude pair
/// per pattern, and — when cache directories are excluded — the flag for
/// it.
pub fn restic_backup_args(
    repo_path: &str,
    backup_paths: &Vec<String>,
    exclude_patterns: &Vec<String>,
    exclude_caches: bool,
) -> (r: Vec<String>)
    ensures
        r@.map_values(|s: String| s@) == seq!["backup"@, "--repo"@, repo_path@, "--json"@]
            + backup_paths@.map_values(|s: String| s@) + seq!["--tag"@, "borgtui"@] + exclude_args(
            exclude_patterns@.map_values(|s: String| s@),
        ) + (if exclude_caches {
            seq!["--exclude-caches"@]
        } else {
            Seq::<Seq<char>>::empty()
        }),
{
    let mut out: Vec<String> = Vec::new();
    out.push("backup".to_owned());
    out.push("--repo".to_owned());
    out.push(repo_path.to_owned());
    out.push("--json".to_owned());
    let ghost head = seq!["backup"@, "--repo"@, repo_path@, "--json"@];
    proof {
        assert(out@.map_values(|s: String| s@) =~= head);
    }
    let mut i: usize = 0;
    let ghost bp = backup_paths@.map_values(|s: String| s@);
    while i < backup_paths.len()
        invariant
            i <= backup_paths.len(),
            bp == backup_paths@.map_values(|s: String| s@),
            bp.len() == backup_paths.len(),
            out@.map_values(|s: String| s@) == head + bp.take(i as int),
        decreases backup_paths.len() - i,
    {
        let ghost prev = out@.map_values(|s: String| s@);
        proof {
            assert(bp[i as int] == backup_paths@[i as int]@);
        }
        out.push(backup_paths[i].clone());
        proof {
            assert(out@.map_values(|s: String| s@) =~= prev.push(bp[i as int]));
            assert(head + bp.take(i + 1) =~= (head + bp.take(i as int)).push(bp[i as int]));
        }
        i = i + 1;
    }
    proof {
        assert(bp.take(bp.len() as int) =~= bp);
    }
    out.push("--tag".to_owned());
    out.push("borgtui".to_owned());
    let ghost mid = head + bp + seq!["--tag"@, "borgtui"@];
    proof {
        assert(out@.map_values(|s: String| s@) =~= mid);
    }
    let ghost ep = exclude_patterns@.map_values(|s: String| s@);
    let mut j: usize = 0;
    while j < exclude_patterns.len()
        invariant
            j <= exclude_patterns.len(),
            ep == exclude_patterns@.map_values(|s: String| s@),
            ep.len() == exclude_patterns.len(),
            out@.map_values(|s: String| s@) == mid + exclude_args(ep.take(j as int)),
        decreases exclude_patterns.len() - j,
    {
        let ghost prev = out@.map_values(|s: String| s@);
        proof {
            assert(ep[j as int] == exclude_patterns@[j as int]@);
        }
        out.push("--exclude".to_owned());
        out.push(exclude_patterns[j].clone());
        proof {
            assert(out@.map_values(|s: String| s@) =~= prev + seq!["--exclude"@, ep[j as int]]);
            assert(ep.take(j + 1).drop_last() =~= ep.take(j as int));
            assert(ep.take(j + 1).last() == ep[j as int]);
            assert(exclude_args(ep.take(j + 1)) == exclude_args(ep.take(j as int)) + seq![
                "--exclude"@,
                ep[j as int],
            ]);
            assert(mid + exclude_args(ep.take(j + 1)) =~= (mid + exclude_args(ep.take(j as int)))
                + seq!["--exclude"@, ep[j as int]]);
        }
        j = j + 1;
    }
    proof {
        assert(ep.take(ep.len() as int) =~= ep);
    }
    if exclude_caches {
        let ghost prev = out@.map_values(|s: String| s@);
        out.push("--exclude-caches".to_owned());
        proof {
            assert(out@.map_values(|s: String| s@) =~= prev + seq!["--exclude-caches"@]);
        }
    }
    proof {
        if !exclude_caches {
            assert(mid + exclude_args(ep) + Seq::<Seq<char>>::empty() =~= mid + exclude_args(ep));
        }
        assert(out@.map_values(|s: String| s@) =~= (head + bp + seq!["--tag"@, "borgtui"@]
            + exclude_args(ep) + (if exclude_caches {
            seq!["--exclude-caches"@]
        } else {
            Seq::<Seq<char>>::empty()
        })));
    }
    out
}

} // verus!
