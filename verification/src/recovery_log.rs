//! The log of what the daemon recovered from: its entries and its rotation.

use crate::numbers::{decimal, decimal_text};
use crate::text::{
    byte_len, bytes_of_both, joined, text_within, views, width, within, within_is_longest,
};
use vstd::prelude::*;
use vstd::string::*;
use vstd::utf8::encode_utf8;

verus! {

/// The most bytes that the log and one entry of it have.
pub const DAEMON_RECOVERY_LOG_MAX_BYTES: u64 = 4_194_304;

/// How many older logs are kept.
pub const DAEMON_RECOVERY_LOG_BACKUPS: u8 = 3;

/// What ends an entry that has been cut.
pub const DAEMON_RECOVERY_LOG_TRUNCATION_MARKER: &'static str = "... [truncated]\n";

/// The number of bytes of a text in UTF-8.
pub open spec fn bytes(text: Seq<char>) -> nat {
    encode_utf8(text).len()
}

/// What an entry begins with.
pub open spec fn entry_prefix(timestamp: Seq<char>) -> Seq<char> {
    "["@ + timestamp + "] "@
}

/// An entry of the log, of at most `max` bytes where its prefix leaves room: a message that
/// does not fit is cut between two characters and marked.
pub open spec fn log_entry(timestamp: Seq<char>, message: Seq<char>, max: int) -> Seq<char> {
    let prefix = entry_prefix(timestamp);
    let marker = DAEMON_RECOVERY_LOG_TRUNCATION_MARKER@;
    if bytes(prefix) + bytes(message) + 1 <= max {
        prefix + message + "\n"@
    } else {
        let room = max - bytes(prefix) - bytes(marker);
        prefix + within(
            message,
            if room < 0 {
                0
            } else {
                room
            },
        ) + marker
    }
}

/// Writes an entry of the log.
pub fn format_daemon_recovery_log_entry(timestamp: &str, message: &str) -> (entry: String)
    ensures
        entry@ == log_entry(timestamp@, message@, DAEMON_RECOVERY_LOG_MAX_BYTES as int),
{
    let prefix = joined(joined("[", timestamp).as_str(), "] ");
    let max: usize = DAEMON_RECOVERY_LOG_MAX_BYTES as usize;
    let prefix_len = byte_len(prefix.as_str());
    let message_len = byte_len(message);
    let marker_len = byte_len(DAEMON_RECOVERY_LOG_TRUNCATION_MARKER);
    let fits = prefix_len < max && message_len <= max - prefix_len - 1;
    let mut entry: String = prefix;
    if fits {
        entry.append(message);
        entry.append("\n");
    } else {
        let room = max.saturating_sub(prefix_len).saturating_sub(marker_len);
        entry.append(text_within(message, room).as_str());
        entry.append(DAEMON_RECOVERY_LOG_TRUNCATION_MARKER);
    }
    entry
}

/// An entry whose prefix leaves room for the mark of a cut keeps to the limit.
pub proof fn entry_keeps_to_the_limit(timestamp: Seq<char>, message: Seq<char>, max: int)
    requires
        bytes(entry_prefix(timestamp)) + bytes(DAEMON_RECOVERY_LOG_TRUNCATION_MARKER@) <= max,
    ensures
        bytes(log_entry(timestamp, message, max)) <= max,
{
    let prefix = entry_prefix(timestamp);
    let marker = DAEMON_RECOVERY_LOG_TRUNCATION_MARKER@;
    if bytes(prefix) + bytes(message) + 1 <= max {
        bytes_of_both(prefix, message);
        bytes_of_both(prefix + message, "\n"@);
        reveal_strlit("\n");
        assert("\n"@.drop_first() =~= seq![]);
        assert(encode_utf8("\n"@).len() == 1) by {
            assert(encode_utf8("\n"@.drop_first()).len() == 0);
        }
    } else {
        let room = max - bytes(prefix) - bytes(marker);
        let kept = within(message, room);
        within_is_longest(message, room);
        bytes_of_both(prefix, kept);
        bytes_of_both(prefix + kept, marker);
    }
}

/// The name of a log: the current one, or one of the older.
pub open spec fn log_name(path: Seq<char>, slot: nat) -> Seq<char> {
    if slot == 0 {
        path
    } else {
        path + "."@ + decimal(slot)
    }
}

/// The moves that make room for a new log, from the oldest on: each log takes the name of
/// the next older one.
pub open spec fn rotation(path: Seq<char>, backups: nat) -> Seq<(Seq<char>, Seq<char>)>
    decreases backups,
{
    if backups == 0 {
        seq![]
    } else {
        seq![(log_name(path, (backups - 1) as nat), log_name(path, backups))] + rotation(
            path,
            (backups - 1) as nat,
        )
    }
}

/// The moves of a list, each by its views.
pub open spec fn moves(list: Seq<(String, String)>) -> Seq<(Seq<char>, Seq<char>)> {
    list.map_values(|step: (String, String)| (step.0@, step.1@))
}

fn slot_name(path: &str, slot: u8) -> (name: String)
    ensures
        name@ == log_name(path@, slot as nat),
{
    if slot == 0 {
        path.to_owned()
    } else {
        joined(joined(path, ".").as_str(), decimal_text(slot as u64).as_str())
    }
}

/// The moves to make before an entry is written: none while the log and the entry keep to
/// the limit. A move is made only where its source is there, and takes the place of what
/// its destination holds.
pub fn rotate_recovery_log(
    path: &str,
    current_bytes: u64,
    incoming_bytes: u64,
    max_bytes: u64,
    backups: u8,
) -> (steps: Vec<(String, String)>)
    ensures
        moves(steps@) == if current_bytes + incoming_bytes <= max_bytes {
            seq![]
        } else {
            rotation(path@, backups as nat)
        },
{
    let mut steps: Vec<(String, String)> = Vec::new();
    let fits = current_bytes <= max_bytes && incoming_bytes <= max_bytes - current_bytes;
    if fits {
        assert(moves(steps@) =~= seq![]);
        return steps;
    }
    let mut slot: u8 = backups;
    assert(moves(steps@) + rotation(path@, slot as nat) =~= rotation(path@, backups as nat));
    while slot > 0
        invariant
            moves(steps@) + rotation(path@, slot as nat) == rotation(path@, backups as nat),
        decreases slot,
    {
        let source = slot_name(path, slot - 1);
        let destination = slot_name(path, slot);
        let ghost earlier = moves(steps@);
        let ghost step = (source@, destination@);
        steps.push((source, destination));
        assert(moves(steps@) =~= earlier.push(step));
        assert(moves(steps@) + rotation(path@, (slot - 1) as nat) =~= earlier + rotation(
            path@,
            slot as nat,
        ));
        slot = slot - 1;
    }
    assert(moves(steps@) + rotation(path@, 0) =~= moves(steps@));
    steps
}

/// The logs after one move: the source, where it is there, takes the destination's place.
pub open spec fn moved(logs: Map<nat, Seq<u8>>, slot: nat) -> Map<nat, Seq<u8>> {
    if slot > 0 && logs.dom().contains((slot - 1) as nat) {
        logs.insert(slot, logs[(slot - 1) as nat]).remove((slot - 1) as nat)
    } else {
        logs
    }
}

/// The logs after the moves of a rotation, by their slots.
pub open spec fn rotated(logs: Map<nat, Seq<u8>>, backups: nat) -> Map<nat, Seq<u8>>
    decreases backups,
{
    if backups == 0 {
        logs
    } else {
        rotated(moved(logs, backups), (backups - 1) as nat)
    }
}

/// A rotation frees the current log's name, gives each log the next older one's name, and
/// touches no log beyond the oldest that is kept: the oldest gives way, and an older log
/// whose newer neighbour is missing stays.
pub proof fn rotation_keeps_a_bounded_history(logs: Map<nat, Seq<u8>>, backups: nat)
    ensures
        backups > 0 ==> !rotated(logs, backups).dom().contains(0),
        forall|slot: nat|
            1 <= slot <= backups ==> {
                &&& logs.dom().contains((slot - 1) as nat) ==> #[trigger] rotated(
                    logs,
                    backups,
                ).dom().contains(slot) && rotated(logs, backups)[slot] == logs[(slot - 1) as nat]
            },
        forall|slot: nat|
            1 <= slot <= backups && !logs.dom().contains((slot - 1) as nat) && (slot == backups
                || !logs.dom().contains(slot)) ==> #[trigger] rotated(
                logs,
                backups,
            ).dom().contains(slot) == logs.dom().contains(slot),
        forall|slot: nat|
            slot > backups ==> #[trigger] rotated(logs, backups).dom().contains(slot)
                == logs.dom().contains(slot) && rotated(logs, backups)[slot] == logs[slot],
    decreases backups,
{
    if backups > 0 {
        let first = moved(logs, backups);
        rotation_keeps_a_bounded_history(first, (backups - 1) as nat);
        let all = rotated(logs, backups);
        assert(all == rotated(first, (backups - 1) as nat));
        if backups == 1 {
            assert(all == first);
        }
        assert forall|slot: nat| slot > backups implies #[trigger] all.dom().contains(slot)
            == logs.dom().contains(slot) && all[slot] == logs[slot] by {
            assert(rotated(first, (backups - 1) as nat).dom().contains(slot)
                == first.dom().contains(slot));
        }
        assert forall|slot: nat|
            1 <= slot <= backups && logs.dom().contains((slot - 1) as nat) implies #[trigger] all.dom().contains(
        slot) && all[slot] == logs[(slot - 1) as nat] by {
            if slot == backups {
                assert(first.dom().contains(slot));
                assert(rotated(first, (backups - 1) as nat).dom().contains(slot)
                    == first.dom().contains(slot));
            } else {
                assert(first.dom().contains((slot - 1) as nat));
                assert(rotated(first, (backups - 1) as nat).dom().contains(slot));
            }
        }
        assert forall|slot: nat|
            1 <= slot <= backups && !logs.dom().contains((slot - 1) as nat) && (slot == backups
                || !logs.dom().contains(slot)) implies #[trigger] all.dom().contains(slot)
            == logs.dom().contains(slot) by {
            if slot == backups {
                assert(first == logs);
                assert(rotated(first, (backups - 1) as nat).dom().contains(slot)
                    == first.dom().contains(slot));
            } else {
                assert(first.dom().contains((slot - 1) as nat) == logs.dom().contains(
                    (slot - 1) as nat,
                ));
                assert(!first.dom().contains(slot));
                assert(rotated(first, (backups - 1) as nat).dom().contains(slot)
                    == first.dom().contains(slot));
            }
        }
    }
}

/// What follows a pass of store maintenance.
#[derive(Debug)]
pub enum MaintenanceStep {
    /// Nothing: too little disk is free for the store to be touched.
    Leave,
    /// Refresh the snapshot of the store's health.
    Refresh,
    /// Take up this failure.
    Fail(String),
}

/// Decides what follows a pass of store maintenance, which tells whether too little free
/// disk kept it from its work.
pub fn after_maintenance_pass(pass: Result<bool, String>) -> (step: MaintenanceStep)
    ensures
        match pass {
            Ok(blocked) => step == if blocked {
                MaintenanceStep::Leave
            } else {
                MaintenanceStep::Refresh
            },
            Err(error) => step matches MaintenanceStep::Fail(details) && details@
                == "store maintenance pass failed: "@ + error@,
        },
{
    match pass {
        Ok(true) => MaintenanceStep::Leave,
        Ok(false) => MaintenanceStep::Refresh,
        Err(error) => MaintenanceStep::Fail(
            joined("store maintenance pass failed: ", error.as_str()),
        ),
    }
}

/// The failure that is taken up where the snapshot could not be refreshed after a pass.
pub fn refresh_storage_health_after_maintenance(refreshed: Result<(), String>) -> (details: Option<
    String,
>)
    ensures
        match refreshed {
            Ok(_) => details is None,
            Err(error) => details matches Some(text) && text@
                == "storage health snapshot refresh failed: "@ + error@,
        },
{
    match refreshed {
        Ok(()) => None,
        Err(error) => Some(joined("storage health snapshot refresh failed: ", error.as_str())),
    }
}

/// What is done about a store maintenance pass that failed.
#[derive(Debug)]
pub struct MaintenanceFailure {
    /// What the recovery log is told, in order.
    pub log: Vec<String>,
    /// Whether the failure is recorded in the store.
    pub record_in_store: bool,
}

/// Decides what is done about a store maintenance pass that failed, given how much disk is
/// free, what marking the health snapshot came to, and how much disk must be free for the
/// store to be written.
pub fn record_store_maintenance_failure(
    details: &str,
    free_disk: Result<u64, String>,
    marked: Result<(), String>,
    min_free_disk: u64,
) -> (failure: MaintenanceFailure)
    ensures
        failure.record_in_store == (free_disk matches Ok(free) && free >= min_free_disk),
        views(failure.log@) == seq![details@] + (match marked {
            Ok(_) => seq![],
            Err(error) => seq![
                "failed to mark storage health snapshot degraded: "@ + error@,
            ],
        }) + (match free_disk {
            Ok(_) => seq![],
            Err(error) => seq![
                "store maintenance error not persisted: failed to inspect free disk: "@ + error@,
            ],
        }),
{
    let mut log: Vec<String> = Vec::new();
    log.push(details.to_owned());
    assert(views(log@) =~= seq![details@]);
    let ghost first = views(log@);
    if let Err(error) = &marked {
        log.push(
            joined("failed to mark storage health snapshot degraded: ", error.as_str()),
        );
        assert(views(log@) =~= first + seq![
            "failed to mark storage health snapshot degraded: "@ + error@,
        ]);
    } else {
        assert(views(log@) =~= first + seq![]);
    }
    let ghost second = views(log@);
    match &free_disk {
        Ok(free) => {
            assert(views(log@) =~= second + seq![]);
            MaintenanceFailure { log, record_in_store: *free >= min_free_disk }
        },
        Err(error) => {
            log.push(
                joined(
                    "store maintenance error not persisted: failed to inspect free disk: ",
                    error.as_str(),
                ),
            );
            assert(views(log@) =~= second + seq![
                "store maintenance error not persisted: failed to inspect free disk: "@ + error@,
            ]);
            MaintenanceFailure { log, record_in_store: false }
        },
    }
}

/// What the recovery log is told of the snapshots that could not be refreshed while the
/// store was being prepared.
pub fn initialize_daemon_store(
    hub: Result<(), String>,
    health: Result<(), String>,
    cached: Result<(), String>,
) -> (log: Vec<String>)
    ensures
        views(log@) == (match hub {
            Ok(_) => seq![],
            Err(error) => seq![
                "hub status snapshot refresh failed during daemon startup: "@ + error@,
            ],
        }) + (match health {
            Ok(_) => seq![],
            Err(error) => seq![
                "storage health snapshot refresh failed during daemon startup: "@ + error@,
            ] + (match cached {
                Ok(_) => seq![],
                Err(cache_error) => seq![
                    "failed to cache unavailable storage health during daemon startup: "@
                        + cache_error@,
                ],
            }),
        }),
{
    let mut log: Vec<String> = Vec::new();
    assert(views(log@) =~= seq![]);
    if let Err(error) = &hub {
        log.push(
            joined("hub status snapshot refresh failed during daemon startup: ", error.as_str()),
        );
        assert(views(log@) =~= seq![
            "hub status snapshot refresh failed during daemon startup: "@ + error@,
        ]);
    }
    let ghost first = views(log@);
    if let Err(error) = &health {
        log.push(
            joined(
                "storage health snapshot refresh failed during daemon startup: ",
                error.as_str(),
            ),
        );
        let ghost line = "storage health snapshot refresh failed during daemon startup: "@
            + error@;
        if let Err(cache_error) = &cached {
            log.push(
                joined(
                    "failed to cache unavailable storage health during daemon startup: ",
                    cache_error.as_str(),
                ),
            );
            assert(views(log@) =~= first + (seq![line] + seq![
                "failed to cache unavailable storage health during daemon startup: "@
                    + cache_error@,
            ]));
        } else {
            assert(views(log@) =~= first + (seq![line] + seq![]));
        }
    } else {
        assert(views(log@) =~= first + seq![]);
    }
    log
}

/// An entry is its time in brackets, a space, the message and a line feed, where that keeps to
/// the limit. Else as much of the message's start as leaves room for the mark of a cut is
/// kept, and that mark ends the entry.
pub proof fn entries_begin_with_their_time(timestamp: Seq<char>, message: Seq<char>, max: int)
    ensures
        ({
            let entry = log_entry(timestamp, message, max);
            let prefix = seq!['['] + timestamp + seq![']', ' '];
            let mark = "... [truncated]\n"@;
            let fits = encode_utf8(prefix).len() + encode_utf8(message).len() + 1 <= max;
            let room = max - encode_utf8(prefix).len() - encode_utf8(mark).len();
            &&& fits ==> entry == prefix + message + seq!['\n']
            &&& !fits && room >= 0 ==> exists|kept: Seq<char>|
                {
                    &&& entry == #[trigger] (prefix + kept + mark)
                    &&& kept.is_prefix_of(message)
                    &&& encode_utf8(kept).len() <= room
                    &&& kept.len() < message.len() ==> encode_utf8(kept).len() + width(
                        message[kept.len() as int],
                    ) > room
                }
            &&& !fits && room < 0 ==> entry == prefix + mark
        }),
        DAEMON_RECOVERY_LOG_MAX_BYTES == 4_194_304,
        DAEMON_RECOVERY_LOG_BACKUPS == 3,
{
    reveal_strlit("[");
    reveal_strlit("] ");
    reveal_strlit("\n");
    let prefix = seq!['['] + timestamp + seq![']', ' '];
    assert(entry_prefix(timestamp) =~= prefix);
    assert("\n"@ =~= seq!['\n']);
    let mark = "... [truncated]\n"@;
    let room = max - encode_utf8(prefix).len() - encode_utf8(mark).len();
    if room >= 0 {
        let kept = within(message, room);
        within_is_longest(message, room);
        assert(prefix + kept + mark == prefix + kept + mark);
    } else {
        within_is_longest(message, 0);
        assert(within(message, 0).len() == 0) by {
            if within(message, 0).len() > 0 {
                reveal_with_fuel(within, 2);
                assert(width(message[0]) >= 1);
            }
        }
        assert(prefix + within(message, 0) + mark =~= prefix + mark);
    }
}

/// The current log has the path itself, and an older one the path, a dot and its number.
pub proof fn older_logs_are_numbered(path: Seq<char>, slot: nat)
    ensures
        log_name(path, 0) == path,
        slot >= 1 ==> log_name(path, slot) == path + "."@ + decimal(slot),
{
}

/// A rotation moves each log to the next older name, the oldest first, so that none is
/// overwritten before it has moved; there is one move for each older log that is kept.
pub proof fn the_oldest_log_moves_first(path: Seq<char>, backups: nat, i: int)
    requires
        0 <= i < backups,
    ensures
        rotation(path, backups).len() == backups,
        rotation(path, backups)[i].0 == log_name(path, (backups - 1 - i) as nat),
        rotation(path, backups)[i].1 == log_name(path, (backups - i) as nat),
    decreases backups,
{
    rotation_len(path, (backups - 1) as nat);
    if i > 0 {
        the_oldest_log_moves_first(path, (backups - 1) as nat, i - 1);
        assert(rotation(path, backups)[i] == rotation(path, (backups - 1) as nat)[i - 1]);
    }
}

proof fn rotation_len(path: Seq<char>, backups: nat)
    ensures
        rotation(path, backups).len() == backups,
    decreases backups,
{
    if backups > 0 {
        rotation_len(path, (backups - 1) as nat);
    }
}

/// A log is rotated if and only if the entry would take it beyond the limit.
pub proof fn full_logs_are_rotated(
    path: &str,
    current: u64,
    incoming: u64,
    max: u64,
    backups: u8,
    steps: Vec<(String, String)>,
    timestamp: &str,
    message: &str,
    entry: String,
)
    requires
        call_ensures(rotate_recovery_log, (path, current, incoming, max, backups), steps),
        call_ensures(format_daemon_recovery_log_entry, (timestamp, message), entry),
    ensures
        current + incoming <= max ==> steps@.len() == 0,
        current + incoming > max ==> moves(steps@) == rotation(path@, backups as nat)
            && steps@.len() == backups,
        entry@ == log_entry(timestamp@, message@, 4_194_304),
{
    rotation_len(path@, backups as nat);
    assert(moves(steps@).len() == steps@.len());
}

/// After a pass of maintenance the health is refreshed, unless too little disk is free; a pass
/// that failed, and a refresh that did, are told.
pub proof fn maintenance_is_followed_up(
    pass: Result<bool, String>,
    step: MaintenanceStep,
    refreshed: Result<(), String>,
    details: Option<String>,
)
    requires
        call_ensures(after_maintenance_pass, (pass,), step),
        call_ensures(refresh_storage_health_after_maintenance, (refreshed,), details),
    ensures
        step is Leave <==> pass == Ok::<bool, String>(true),
        step is Refresh <==> pass == Ok::<bool, String>(false),
        pass matches Err(error) ==> (step matches MaintenanceStep::Fail(text) && text@
            == "store maintenance pass failed: "@ + error@),
        details is None <==> refreshed is Ok,
        refreshed matches Err(error) ==> (details matches Some(text) && text@
            == "storage health snapshot refresh failed: "@ + error@),
{
}

/// A failure of maintenance is logged in any case, and recorded in the store if and only if it
/// is known that enough disk is free.
pub proof fn failures_are_recorded_where_there_is_room(
    details: &str,
    free_disk: Result<u64, String>,
    marked: Result<(), String>,
    min_free_disk: u64,
    failure: MaintenanceFailure,
)
    requires
        call_ensures(
            record_store_maintenance_failure,
            (details, free_disk, marked, min_free_disk),
            failure,
        ),
    ensures
        failure.record_in_store <==> (free_disk matches Ok(free) && free >= min_free_disk),
        failure.log@.len() >= 1,
        failure.log@[0]@ == details@,
        marked is Ok && free_disk is Ok ==> failure.log@.len() == 1,
        marked matches Err(error) ==> failure.log@.len() >= 2 && failure.log@[1]@
            == "failed to mark storage health snapshot degraded: "@ + error@,
        free_disk matches Err(error) ==> failure.log@.last()@
            == "store maintenance error not persisted: failed to inspect free disk: "@ + error@,
{
    let told = views(failure.log@);
    assert(told.len() == failure.log@.len());
    assert(told[0] == failure.log@[0]@);
    if marked is Err {
        assert(told[1] == failure.log@[1]@);
    }
    assert(told.last() == failure.log@.last()@);
}

/// What could not be refreshed while the store was prepared is told: the hub's status, the
/// health, and where that failed the cache of its failure too.
pub proof fn startup_tells_what_was_not_refreshed(
    hub: Result<(), String>,
    health: Result<(), String>,
    cached: Result<(), String>,
    log: Vec<String>,
)
    requires
        call_ensures(initialize_daemon_store, (hub, health, cached), log),
    ensures
        hub is Ok && health is Ok ==> log@.len() == 0,
        hub matches Err(error) ==> log@.len() >= 1 && log@[0]@
            == "hub status snapshot refresh failed during daemon startup: "@ + error@,
        health is Ok && hub is Err ==> log@.len() == 1,
        hub is Ok ==> (health matches Err(error) ==> log@.len() >= 1 && log@[0]@
            == "storage health snapshot refresh failed during daemon startup: "@ + error@),
        health is Err ==> (cached matches Err(error) ==> log@.last()@
            == "failed to cache unavailable storage health during daemon startup: "@ + error@),
{
    let told = views(log@);
    assert(told.len() == log@.len());
    if told.len() > 0 {
        assert(told[0] == log@[0]@);
        assert(told.last() == log@.last()@);
    }
}

} // verus!
