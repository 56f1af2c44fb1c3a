//! Progress normalization for a library-based engine: the emitter tracks
//! byte counters and turns them into rate-limited events of the common
//! response vocabulary. The engine calls it from its worker threads; the
//! application wraps one emitter in shared state and feeds it the clock
//! (`now_millis`), since reading the time is the application's business.
use vstd::prelude::*;

use crate::bus::CommandResponse;
use crate::strutil::{dec_spec, u64_to_dec};
use crate::types::{BackupCreateProgress, BackupCreationProgress, CheckProgress};

verus! {

/// How many halvings-by-1024 it takes to bring `n` under 1024.
pub open spec fn unit_index(n: nat) -> nat
    decreases n,
{
    if n < 1024 {
        0
    } else {
        1 + unit_index(n / 1024)
    }
}

/// `n` scaled down by 1024, `i` times (truncating).
pub open spec fn scale_down(n: nat, i: nat) -> nat
    decreases i,
{
    if i == 0 {
        n
    } else {
        scale_down(n / 1024, (i - 1) as nat)
    }
}

/// The display name of binary unit `i`.
pub open spec fn unit_name(i: nat) -> Seq<char> {
    if i == 0 {
        "B"@
    } else if i == 1 {
        "KiB"@
    } else if i == 2 {
        "MiB"@
    } else if i == 3 {
        "GiB"@
    } else if i == 4 {
        "TiB"@
    } else {
        "PiB"@
    }
}

/// What a byte count renders as: the count scaled to its unit (truncated
/// to a whole number), a space, and the unit name; counts too large for
/// the named units stay in bytes.
pub open spec fn bytes_spec(n: nat) -> Seq<char> {
    if unit_index(n) <= 5 {
        dec_spec(scale_down(n, unit_index(n))) + seq![' '] + unit_name(unit_index(n))
    } else {
        dec_spec(n) + seq![' '] + unit_name(0)
    }
}

proof fn lemma_unit_index_step(n: nat, i: nat)
    requires
        i < unit_index(n),
    ensures
        unit_index(scale_down(n, i)) == unit_index(n) - i,
        scale_down(n, i) >= 1024,
    decreases i,
{
    if i > 0 {
        lemma_unit_index_step(n / 1024, (i - 1) as nat);
    }
}

/// Renders a byte count in its binary unit, as `bytes_spec` describes.
pub fn format_bytes(n: u64) -> (r: String)
    ensures
        r@ == bytes_spec(n as nat),
{
    proof {
        reveal_strlit(" ");
    }
    let mut index: u64 = 0;
    let mut scaled = n;
    loop
        invariant
            index <= 6,
            scaled == scale_down(n as nat, index as nat),
            index <= unit_index(n as nat),
        ensures
            scaled == scale_down(n as nat, index as nat),
            index == unit_index(n as nat) || (index == 6 && unit_index(n as nat) >= 6),
        decreases 6 - index,
    {
        if scaled < 1024 {
            proof {
                assert(unit_index(scale_down(n as nat, index as nat)) == 0);
                lemma_unit_index_sum(n as nat, index as nat);
            }
            break;
        }
        proof {
            lemma_unit_index_ge(n as nat, index as nat);
        }
        if index == 6 {
            break;
        }
        proof {
            lemma_scale_down_shift(n as nat, index as nat);
        }
        scaled = scaled / 1024;
        index = index + 1;
    }
    if index <= 5 {
        let mut s = u64_to_dec(scaled);
        s.append(" ");
        let unit = if index == 0 {
            "B"
        } else if index == 1 {
            "KiB"
        } else if index == 2 {
            "MiB"
        } else if index == 3 {
            "GiB"
        } else if index == 4 {
            "TiB"
        } else {
            "PiB"
        };
        s.append(unit);
        proof {
            assert(" "@ =~= seq![' ']);
            assert(s@ =~= bytes_spec(n as nat));
        }
        s
    } else {
        let mut s = u64_to_dec(n);
        s.append(" B");
        proof {
            reveal_strlit(" B");
            reveal_strlit("B");
            assert(" B"@ =~= seq![' '] + "B"@);
            assert(s@ =~= bytes_spec(n as nat));
        }
        s
    }
}

proof fn lemma_unit_index_sum(n: nat, i: nat)
    requires
        i <= unit_index(n),
        unit_index(scale_down(n, i)) == 0,
    ensures
        unit_index(n) == i,
    decreases i,
{
    if i > 0 {
        if i - 1 < unit_index(n) {
            lemma_unit_index_step(n, (i - 1) as nat);
            assert(scale_down(n, (i - 1) as nat) >= 1024);
            assert(unit_index(scale_down(n, (i - 1) as nat)) == unit_index(n) - (i - 1));
            assert(scale_down(n, i) == scale_down(n, (i - 1) as nat) / 1024) by {
                lemma_scale_down_shift(n, (i - 1) as nat);
            }
            assert(unit_index(scale_down(n, (i - 1) as nat)) == 1 + unit_index(scale_down(n, i)));
        }
    }
}

proof fn lemma_scale_down_shift(n: nat, i: nat)
    ensures
        scale_down(n, i + 1) == scale_down(n, i) / 1024,
    decreases i,
{
    assert(scale_down(n, i + 1) == scale_down(n / 1024, i));
    if i > 0 {
        lemma_scale_down_shift(n / 1024, (i - 1) as nat);
        assert(scale_down(n / 1024, i) == scale_down(n / 1024, (i - 1) as nat) / 1024);
        assert(scale_down(n, i) == scale_down(n / 1024, (i - 1) as nat));
    }
}

proof fn lemma_unit_index_ge(n: nat, i: nat)
    requires
        scale_down(n, i) >= 1024,
    ensures
        unit_index(n) > i,
    decreases i,
{
    if i == 0 {
    } else {
        lemma_scale_down_lower(n, i);
        lemma_unit_index_ge(n / 1024, (i - 1) as nat);
    }
}

proof fn lemma_scale_down_lower(n: nat, i: nat)
    requires
        i > 0,
    ensures
        scale_down(n, i) == scale_down(n / 1024, (i - 1) as nat),
{
}

/// Which flavor of events an emitter produces.
#[derive(Clone, Copy, Debug, PartialEq, Eq, Structural)]
pub enum ProgressEmitterKind {
    /// Normalized backup-creation progress.
    Backup,
    /// Informational lines (prune runs).
    Info,
    /// Check diagnostics.
    Check,
}

/// The engine-facing progress state of one repository operation: byte
/// counters, the title the engine set, and the bookkeeping the
/// rate-limiting decision needs.
pub struct ProgressEmitter {
    pub prefix: String,
    pub repo_path: String,
    pub title: String,
    pub length: u64,
    pub counter: u64,
    pub last_sent_counter: u64,
    pub last_time_sent_millis: u64,
    pub force_emit_now: bool,
    pub hidden: bool,
    pub kind: ProgressEmitterKind,
}

/// Whether the counter moved enough (a tenth of its new value) since the
/// last emitted event to be worth another one.
pub open spec fn substantial_change(last_sent: nat, counter: nat) -> bool {
    counter > 0 && 10 * (counter - last_sent) >= counter
}

/// The rate limit: an event goes out on a substantial change, after 200
/// milliseconds of silence, or when one was forced (a title change).
pub open spec fn should_emit(
    last_sent: nat,
    counter: nat,
    last_time_millis: nat,
    now_millis: nat,
    force: bool,
) -> bool {
    substantial_change(last_sent, counter) || now_millis >= last_time_millis + 200 || force
}

impl ProgressEmitter {
    /// An emitter for a backup of the given repository.
    pub fn create_backup(repo_path: String) -> (r: Self)
        ensures
            r.repo_path@ == repo_path@,
            r.prefix@ == Seq::<char>::empty(),
            r.title@ == Seq::<char>::empty(),
            r.length == 0,
            r.counter == 0,
            r.last_sent_counter == 0,
            r.force_emit_now == false,
            r.hidden == false,
            r.kind == ProgressEmitterKind::Backup,
    {
        proof {
            reveal_strlit("");
        }
        ProgressEmitter {
            prefix: "".to_owned(),
            repo_path,
            title: "".to_owned(),
            length: 0,
            counter: 0,
            last_sent_counter: 0,
            last_time_sent_millis: 0,
            force_emit_now: false,
            hidden: false,
            kind: ProgressEmitterKind::Backup,
        }
    }

    /// An emitter whose events are informational lines.
    pub fn info(repo_path: String) -> (r: Self)
        ensures
            r.repo_path@ == repo_path@,
            r.kind == ProgressEmitterKind::Info,
            r.counter == 0,
            r.length == 0,
    {
        let mut e = Self::create_backup(repo_path);
        e.kind = ProgressEmitterKind::Info;
        e
    }

    /// An emitter whose events are check diagnostics.
    pub fn check(repo_path: String) -> (r: Self)
        ensures
            r.repo_path@ == repo_path@,
            r.kind == ProgressEmitterKind::Check,
            r.counter == 0,
            r.length == 0,
    {
        let mut e = Self::create_backup(repo_path);
        e.kind = ProgressEmitterKind::Check;
        e
    }

    /// The same emitter under a new prefix (how per-phase progress bars
    /// are spawned).
    pub fn with_prefix(&self, prefix: String) -> (r: Self)
        ensures
            r.prefix@ == prefix@,
            r.repo_path@ == self.repo_path@,
            r.title@ == self.title@,
            r.length == self.length,
            r.counter == self.counter,
            r.last_sent_counter == self.last_sent_counter,
            r.last_time_sent_millis == self.last_time_sent_millis,
            r.force_emit_now == self.force_emit_now,
            r.hidden == self.hidden,
            r.kind == self.kind,
    {
        ProgressEmitter {
            prefix,
            repo_path: self.repo_path.clone(),
            title: self.title.clone(),
            length: self.length,
            counter: self.counter,
            last_sent_counter: self.last_sent_counter,
            last_time_sent_millis: self.last_time_sent_millis,
            force_emit_now: self.force_emit_now,
            hidden: self.hidden,
            kind: self.kind,
        }
    }

    pub fn is_hidden(&self) -> (r: bool)
        ensures
            r == self.hidden,
    {
        self.hidden
    }

    pub fn set_length(&mut self, len: u64)
        ensures
            *final(self) == (ProgressEmitter { length: len, ..*old(self) }),
    {
        self.length = len;
    }

    /// Adopts a new phase title and forces the next event out.
    pub fn set_title(&mut self, title: String)
        ensures
            final(self).title@ == title@,
            final(self).force_emit_now == true,
            final(self).counter == old(self).counter,
            final(self).length == old(self).length,
            final(self).last_sent_counter == old(self).last_sent_counter,
            final(self).kind == old(self).kind,
            final(self).repo_path@ == old(self).repo_path@,
            final(self).prefix@ == old(self).prefix@,
            final(self).hidden == old(self).hidden,
            final(self).last_time_sent_millis == old(self).last_time_sent_millis,
    {
        self.title = title;
        self.force_emit_now = true;
    }

    /// The check-diagnostic event: `prefix count / length`, and the sent
    /// counter catches up.
    pub fn send_check_progress(&mut self) -> (r: CommandResponse)
        ensures
            *final(self) == (ProgressEmitter { last_sent_counter: old(self).counter, ..*old(self) }),
            r matches CommandResponse::CheckProgress(p) && p.repo_location@ == old(self).repo_path@
                && p.message@ == old(self).prefix@ + seq![' '] + bytes_spec(old(self).counter as nat)
                + " / "@ + bytes_spec(old(self).length as nat),
    {
        self.last_sent_counter = self.counter;
        let mut msg = self.prefix.clone();
        msg.append(" ");
        let c = format_bytes(self.counter);
        msg.append(c.as_str());
        msg.append(" / ");
        let l = format_bytes(self.length);
        msg.append(l.as_str());
        proof {
            reveal_strlit(" ");
            assert(" "@ =~= seq![' ']);
        }
        CommandResponse::CheckProgress(CheckProgress::new(self.repo_path.clone(), msg))
    }

    /// The informational event: `[repo] prefix count / length`.
    pub fn send_info_progress(&mut self) -> (r: CommandResponse)
        ensures
            *final(self) == (ProgressEmitter { last_sent_counter: old(self).counter, ..*old(self) }),
            r matches CommandResponse::Info(m) && m@ == "["@ + old(self).repo_path@ + "] "@ + old(
                self,
            ).prefix@ + seq![' '] + bytes_spec(old(self).counter as nat) + " / "@ + bytes_spec(
                old(self).length as nat,
            ),
    {
        self.last_sent_counter = self.counter;
        let mut msg = "[".to_owned();
        msg.append(self.repo_path.as_str());
        msg.append("] ");
        msg.append(self.prefix.as_str());
        msg.append(" ");
        let c = format_bytes(self.counter);
        msg.append(c.as_str());
        msg.append(" / ");
        let l = format_bytes(self.length);
        msg.append(l.as_str());
        proof {
            reveal_strlit(" ");
            assert(" "@ =~= seq![' ']);
        }
        CommandResponse::Info(msg)
    }

    /// The normalized backup event: the engine's length as the original
    /// size, the byte counter for the compressed and deduplicated sizes,
    /// and a rendered `prefix: title - count / length` line as the
    /// current path.
    pub fn send_create_progress(&mut self) -> (r: CommandResponse)
        ensures
            *final(self) == (ProgressEmitter { last_sent_counter: old(self).counter, ..*old(self) }),
            r matches CommandResponse::CreateProgress(p) && p.repository@ == old(self).repo_path@
                && (p.create_progress matches BackupCreationProgress::InProgress {
                original_size,
                compressed_size,
                deduplicated_size,
                num_files,
                current_path,
            } && original_size == old(self).length && compressed_size == old(self).counter
                && deduplicated_size == old(self).counter && num_files == 0 && current_path@ == old(
                self,
            ).prefix@ + ": "@ + old(self).title@ + " - "@ + bytes_spec(old(self).counter as nat)
                + " / "@ + bytes_spec(old(self).length as nat)),
    {
        self.last_sent_counter = self.counter;
        let mut msg = self.prefix.clone();
        msg.append(": ");
        msg.append(self.title.as_str());
        msg.append(" - ");
        let c = format_bytes(self.counter);
        msg.append(c.as_str());
        msg.append(" / ");
        let l = format_bytes(self.length);
        msg.append(l.as_str());
        let progress = BackupCreationProgress::InProgress {
            original_size: self.length,
            compressed_size: self.counter,
            deduplicated_size: self.counter,
            num_files: 0,
            current_path: msg,
        };
        CommandResponse::CreateProgress(
            BackupCreateProgress::new(self.repo_path.clone(), progress),
        )
    }

    /// The terminal event of a backup emitter; emitters of the other
    /// kinds end without one.
    pub fn maybe_send_backup_create_finished(&self) -> (r: Option<CommandResponse>)
        ensures
            self.kind == ProgressEmitterKind::Backup <==> r is Some,
            r matches Some(resp) ==> resp matches CommandResponse::CreateProgress(p)
                && p.repository@ == self.repo_path@ && p.create_progress is Finished,
    {
        match self.kind {
            ProgressEmitterKind::Backup => Some(
                CommandResponse::CreateProgress(
                    BackupCreateProgress::finished(self.repo_path.clone()),
                ),
            ),
            _ => None,
        }
    }

    /// One event of this emitter's kind, and the send bookkeeping moves:
    /// the last-sent time and counter catch up.
    pub fn send_message(&mut self, now_millis: u64) -> (r: CommandResponse)
        ensures
            final(self).last_time_sent_millis == now_millis,
            final(self).last_sent_counter == old(self).counter,
            final(self).counter == old(self).counter,
            final(self).kind == old(self).kind,
            final(self).force_emit_now == old(self).force_emit_now,
            match old(self).kind {
                ProgressEmitterKind::Backup => r is CreateProgress,
                ProgressEmitterKind::Info => r is Info,
                ProgressEmitterKind::Check => r is CheckProgress,
            },
    {
        self.last_time_sent_millis = now_millis;
        match self.kind {
            ProgressEmitterKind::Backup => self.send_create_progress(),
            ProgressEmitterKind::Info => self.send_info_progress(),
            ProgressEmitterKind::Check => self.send_check_progress(),
        }
    }

    /// Advances the byte counter and applies the rate limit: an event
    /// comes back exactly when the change was substantial, enough time
    /// passed, or an emission was forced.
    pub fn inc(&mut self, amount: u64, now_millis: u64) -> (r: Option<CommandResponse>)
        requires
            old(self).counter + amount <= u64::MAX,
        ensures
            final(self).counter == old(self).counter + amount,
            r is Some <==> should_emit(
                old(self).last_sent_counter as nat,
                (old(self).counter + amount) as nat,
                old(self).last_time_sent_millis as nat,
                now_millis as nat,
                old(self).force_emit_now,
            ),
            r is None ==> final(self).last_sent_counter == old(self).last_sent_counter,
            r is Some ==> final(self).last_sent_counter == final(self).counter
                && final(self).last_time_sent_millis == now_millis,
    {
        self.counter = self.counter + amount;
        let new_value = self.counter;
        let last_sent = self.last_sent_counter;
        let substantial = new_value > 0 && new_value >= last_sent && 10 * ((new_value
            - last_sent) as u128) >= (new_value as u128);
        let timely = now_millis >= self.last_time_sent_millis
            && now_millis - self.last_time_sent_millis >= 200;
        proof {
            assert(timely == (now_millis as nat >= old(self).last_time_sent_millis as nat + 200));
        }
        if substantial || timely || self.force_emit_now {
            Some(self.send_message(now_millis))
        } else {
            None
        }
    }

    /// The engine finished a phase: unless the emitter is hidden, the
    /// last state always goes out.
    pub fn finish(&mut self, now_millis: u64) -> (r: Option<CommandResponse>)
        ensures
            r is None <==> old(self).hidden,
            old(self).hidden ==> *final(self) == *old(self),
    {
        if self.hidden {
            return None;
        }
        Some(self.send_message(now_millis))
    }
}

} // verus!
