//! What holds of the rooms whatever is asked.
use vstd::prelude::*;
use crate::server::{
    all_unready, deserted, everyone_ready, left, remaining, seat_of, step, PlayerView, RequestView,
    RoomView, MAX_PLAYERS,
};

verus! {

/// A room as the server keeps it: one to [`MAX_PLAYERS`] players, each on a
/// connection of their own, and a save only with those who are ready. Somebody
/// is there, and before the start everybody is.
pub open spec fn room_ok(room: RoomView) -> bool {
    &&& 1 <= room.players.len() <= MAX_PLAYERS
    &&& !deserted(room.players)
    &&& !room.started ==> forall|i: int|
        0 <= i < room.players.len() ==> !(#[trigger] room.players[i]).gone
    &&& forall|i: int, j: int|
        0 <= i < j < room.players.len() ==> (#[trigger] room.players[i]).conn != (
        #[trigger] room.players[j]).conn
    &&& forall|i: int|
        0 <= i < room.players.len() ==> (!(#[trigger] room.players[i]).ready
            ==> room.players[i].save is None)
}

/// Every room is kept so.
pub open spec fn rooms_ok(rooms: Map<Seq<char>, RoomView>) -> bool {
    forall|code: Seq<char>| #[trigger] rooms.contains_key(code) ==> room_ok(rooms[code])
}

/// Whether a connection plays in a room.
pub open spec fn plays_in(room: RoomView, conn: u64) -> bool {
    exists|i: int|
        0 <= i < room.players.len() && (#[trigger] room.players[i]).conn == conn
            && !room.players[i].gone
}

/// A connection plays in the room it is a member of, and in no other.
pub open spec fn placed(
    rooms: Map<Seq<char>, RoomView>,
    member: Option<Seq<char>>,
    conn: u64,
) -> bool {
    forall|code: Seq<char>| #[trigger]
        rooms.contains_key(code) && plays_in(rooms[code], conn) ==> member == Some(code)
}

proof fn lemma_seat(players: Seq<PlayerView>, conn: u64)
    ensures
        seat_of(players, conn) <= players.len(),
        seat_of(players, conn) < players.len() ==> {
            &&& players[seat_of(players, conn) as int].conn == conn
            &&& !players[seat_of(players, conn) as int].gone
        },
    decreases players.len(),
{
    if players.len() > 0 && (players[0].conn != conn || players[0].gone) {
        lemma_seat(players.skip(1), conn);
    }
}

/// Whatever is asked, the rooms stay as they should be, and the connection
/// plays where it is a member and nowhere else.
pub proof fn law_requests_keep_rooms_ok(
    rooms: Map<Seq<char>, RoomView>,
    member: Option<Seq<char>>,
    conn: u64,
    request: RequestView,
    fresh: Seq<char>,
    clock: u64,
    max_save: nat,
)
    requires
        rooms_ok(rooms),
        placed(rooms, member, conn),
        !rooms.contains_key(fresh),
    ensures
        ({
            let o = step(rooms, member, conn, request, fresh, clock, max_save);
            rooms_ok(o.rooms) && placed(o.rooms, o.member, conn)
        }),
{
    let o = step(rooms, member, conn, request, fresh, clock, max_save);
    assert forall|code: Seq<char>| #[trigger] o.rooms.contains_key(code) implies room_ok(
        o.rooms[code],
    ) && (plays_in(o.rooms[code], conn) ==> o.member == Some(code)) by {
        if rooms.contains_key(code) {
            assert(room_ok(rooms[code]));
            let was = rooms[code];
            let now = o.rooms[code];
            if now != was {
                lemma_changed_room(rooms, member, conn, request, fresh, clock, max_save, code);
            }
            if plays_in(now, conn) && !plays_in(was, conn) {
                let i = choose|i: int|
                    0 <= i < now.players.len() && (#[trigger] now.players[i]).conn == conn
                        && !now.players[i].gone;
                if now.players.len() == was.players.len() {
                    assert(now.players[i].conn == was.players[i].conn);
                }
            }
        } else {
            assert(!o.rooms[code].players[0].gone);
        }
    }
}

/// A room that changes keeps its players in their seats, but for one who
/// enters last.
proof fn lemma_changed_room(
    rooms: Map<Seq<char>, RoomView>,
    member: Option<Seq<char>>,
    conn: u64,
    request: RequestView,
    fresh: Seq<char>,
    clock: u64,
    max_save: nat,
    code: Seq<char>,
)
    requires
        rooms_ok(rooms),
        placed(rooms, member, conn),
        !rooms.contains_key(fresh),
        rooms.contains_key(code),
        step(rooms, member, conn, request, fresh, clock, max_save).rooms[code] != rooms[code],
    ensures
        ({
            let o = step(rooms, member, conn, request, fresh, clock, max_save);
            let was = rooms[code];
            let now = o.rooms[code];
            &&& o.rooms.contains_key(code)
            &&& o.member == Some(code)
            &&& room_ok(now)
            &&& now.players.len() == was.players.len() ==> forall|i: int|
                0 <= i < was.players.len() ==> (#[trigger] now.players[i]).conn
                    == was.players[i].conn && now.players[i].gone == was.players[i].gone
        }),
{
    let o = step(rooms, member, conn, request, fresh, clock, max_save);
    let was = rooms[code];
    let now = o.rooms[code];
    assert(room_ok(was));
    if request is JoinRoom {
        assert(!plays_in(was, conn));
        let p = now.players.last();
        assert(now.players =~= all_unready(was.players).push(p));
        assert(plays_in(now, conn)) by {
            assert(now.players[now.players.len() - 1].conn == conn);
        }
        assert forall|i: int| 0 <= i < now.players.len() implies !(#[trigger] now.players[i]).gone by {
            if i < was.players.len() {
                assert(!was.players[i].gone);
            }
        }
        assert forall|i: int, j: int| 0 <= i < j < now.players.len() implies (
        #[trigger] now.players[i]).conn != (#[trigger] now.players[j]).conn by {
            assert(now.players[i].conn == was.players[i].conn);
            if j < was.players.len() {
                assert(now.players[j].conn == was.players[j].conn);
            }
        }
    } else {
        lemma_seat(was.players, conn);
        assert forall|i: int| 0 <= i < was.players.len() implies (#[trigger] now.players[i]).conn
            == was.players[i].conn && now.players[i].gone == was.players[i].gone by {}
        let there = choose|i: int| 0 <= i < was.players.len() && !(#[trigger] was.players[i]).gone;
        assert(!now.players[there].gone);
        assert forall|i: int, j: int| 0 <= i < j < now.players.len() implies (
        #[trigger] now.players[i]).conn != (#[trigger] now.players[j]).conn by {
            assert(was.players[i].conn != was.players[j].conn);
        }
    }
}

/// When a connection ends, the rooms stay as they should be, and it plays
/// nowhere.
pub proof fn law_leaving_keeps_rooms_ok(
    rooms: Map<Seq<char>, RoomView>,
    member: Option<Seq<char>>,
    conn: u64,
)
    requires
        rooms_ok(rooms),
        placed(rooms, member, conn),
    ensures
        rooms_ok(left(rooms, member, conn).rooms),
        placed(left(rooms, member, conn).rooms, None, conn),
{
    let o = left(rooms, member, conn);
    assert forall|code: Seq<char>| #[trigger] o.rooms.contains_key(code) implies room_ok(
        o.rooms[code],
    ) && !plays_in(o.rooms[code], conn) by {
        assert(rooms.contains_key(code));
        let was = rooms[code];
        let now = o.rooms[code];
        assert(room_ok(was));
        if member == Some(code) {
            lemma_seat(was.players, conn);
            lemma_seat_absent(was.players, conn);
            let at = seat_of(was.players, conn) as int;
            if at < was.players.len() {
                assert(now.players == remaining(was, at));
                assert(!deserted(now.players));
                lemma_remaining(was, at, conn);
            }
        }
    }
}

/// Where one has left, the others are in order, and the one plays no more.
proof fn lemma_remaining(was: RoomView, at: int, conn: u64)
    requires
        room_ok(was),
        0 <= at < was.players.len(),
        was.players[at].conn == conn,
        !deserted(remaining(was, at)),
    ensures
        ({
            let now = RoomView { started: was.started, players: remaining(was, at) };
            room_ok(now) && !plays_in(now, conn)
        }),
{
    let players = remaining(was, at);
    // Where a player sat before.
    let before = |i: int|
        if was.started || i < at {
            i
        } else {
            i + 1
        };
    assert forall|i: int| 0 <= i < players.len() implies {
        &&& (#[trigger] players[i]).conn == was.players[before(i)].conn
        &&& 0 <= before(i) < was.players.len()
        &&& players[i].gone == (was.players[before(i)].gone || (was.started && i == at))
    } by {
        if !was.started {
            assert(was.players.remove(at)[i] == was.players[before(i)]);
        }
    }
    assert forall|i: int, j: int| 0 <= i < j < players.len() implies (#[trigger] players[i]).conn
        != (#[trigger] players[j]).conn by {
        assert(was.players[before(i)].conn != was.players[before(j)].conn);
    }
    assert forall|i: int| 0 <= i < players.len() implies (!(#[trigger] players[i]).ready
        ==> players[i].save is None) by {
        assert(!was.players[i].ready ==> was.players[i].save is None);
    }
    assert forall|i: int| 0 <= i < players.len() && !(#[trigger] players[i]).gone implies players[i].conn
        != conn by {
        if before(i) < at {
            assert(was.players[before(i)].conn != was.players[at].conn);
        } else {
            assert(was.players[at].conn != was.players[before(i)].conn);
        }
    }
}

/// Whatever a connection asks, and when it ends, every other connection plays
/// where it is a member and nowhere else, as before.
pub proof fn law_others_stay_placed(
    rooms: Map<Seq<char>, RoomView>,
    member: Option<Seq<char>>,
    conn: u64,
    request: RequestView,
    fresh: Seq<char>,
    clock: u64,
    max_save: nat,
    other: u64,
    theirs: Option<Seq<char>>,
)
    requires
        rooms_ok(rooms),
        placed(rooms, member, conn),
        !rooms.contains_key(fresh),
        other != conn,
        placed(rooms, theirs, other),
    ensures
        placed(step(rooms, member, conn, request, fresh, clock, max_save).rooms, theirs, other),
        placed(left(rooms, member, conn).rooms, theirs, other),
{
    let o = step(rooms, member, conn, request, fresh, clock, max_save);
    assert forall|code: Seq<char>| #[trigger]
        o.rooms.contains_key(code) && plays_in(o.rooms[code], other) implies theirs == Some(
        code,
    ) by {
        let now = o.rooms[code];
        let i = choose|i: int|
            0 <= i < now.players.len() && (#[trigger] now.players[i]).conn == other
                && !now.players[i].gone;
        if rooms.contains_key(code) {
            let was = rooms[code];
            if now != was {
                lemma_changed_room(rooms, member, conn, request, fresh, clock, max_save, code);
                assert(was.players[i].conn == other && !was.players[i].gone);
            }
            assert(plays_in(was, other));
        }
    }
    let l = left(rooms, member, conn);
    assert forall|code: Seq<char>| #[trigger]
        l.rooms.contains_key(code) && plays_in(l.rooms[code], other) implies theirs == Some(
        code,
    ) by {
        let now = l.rooms[code];
        let was = rooms[code];
        let i = choose|i: int|
            0 <= i < now.players.len() && (#[trigger] now.players[i]).conn == other
                && !now.players[i].gone;
        if now != was {
            let at = seat_of(was.players, conn) as int;
            assert(now.players == remaining(was, at));
            if !was.started {
                let rest = was.players.remove(at);
                assert(now.players[i].conn == rest[i].conn);
                let before = if i < at {
                    i
                } else {
                    i + 1
                };
                assert(rest[i] == was.players[before]);
                assert(was.players[before].conn == other && !was.players[before].gone);
            } else {
                assert(was.players[i].conn == other && !was.players[i].gone);
            }
        }
        assert(plays_in(was, other));
    }
}

proof fn lemma_seat_absent(players: Seq<PlayerView>, conn: u64)
    ensures
        seat_of(players, conn) >= players.len() ==> forall|i: int|
            0 <= i < players.len() ==> (#[trigger] players[i]).conn != conn || players[i].gone,
    decreases players.len(),
{
    if players.len() > 0 && (players[0].conn != conn || players[0].gone) {
        let more = players.skip(1);
        lemma_seat_absent(more, conn);
        if seat_of(players, conn) >= players.len() {
            assert forall|i: int| 0 <= i < players.len() implies (#[trigger] players[i]).conn
                != conn || players[i].gone by {
                if i > 0 {
                    assert(more[i - 1] == players[i]);
                }
            }
        }
    }
}

/// A refused request is answered with an error to the one who asked, and
/// changes nothing.
pub proof fn law_refusals_change_nothing(
    rooms: Map<Seq<char>, RoomView>,
    member: Option<Seq<char>>,
    conn: u64,
    request: RequestView,
    fresh: Seq<char>,
    clock: u64,
    max_save: nat,
    i: int,
)
    requires
        ({
            let o = step(rooms, member, conn, request, fresh, clock, max_save);
            0 <= i < o.sent.len() && o.sent[i].1 is Error
        }),
    ensures
        ({
            let o = step(rooms, member, conn, request, fresh, clock, max_save);
            &&& o.rooms == rooms
            &&& o.member == member
            &&& o.sent.len() == 1
            &&& o.sent[0].0 == conn
        }),
{
}

/// A room starts only when the player in the first seat asks, with two or more
/// in it and everyone ready.
pub proof fn law_rooms_start_by_agreement(
    rooms: Map<Seq<char>, RoomView>,
    member: Option<Seq<char>>,
    conn: u64,
    request: RequestView,
    fresh: Seq<char>,
    clock: u64,
    max_save: nat,
    code: Seq<char>,
)
    requires
        rooms.contains_key(code),
        !rooms[code].started,
        !rooms.contains_key(fresh),
        step(rooms, member, conn, request, fresh, clock, max_save).rooms[code].started,
    ensures
        request is Start,
        rooms[code].players.len() >= 2,
        rooms[code].players[0].conn == conn,
        everyone_ready(rooms[code].players),
{
    lemma_seat(rooms[code].players, conn);
}

/// A started room takes nobody in and stays started, with the same players in
/// the same seats, whatever is asked.
pub proof fn law_started_rooms_are_closed(
    rooms: Map<Seq<char>, RoomView>,
    member: Option<Seq<char>>,
    conn: u64,
    request: RequestView,
    fresh: Seq<char>,
    clock: u64,
    max_save: nat,
    code: Seq<char>,
)
    requires
        rooms.contains_key(code),
        rooms[code].started,
        !rooms.contains_key(fresh),
    ensures
        step(rooms, member, conn, request, fresh, clock, max_save).rooms.contains_key(code),
        step(rooms, member, conn, request, fresh, clock, max_save).rooms[code] == rooms[code],
{
}

/// Entering a room leaves nobody in it ready.
pub proof fn law_entering_resets_ready(
    rooms: Map<Seq<char>, RoomView>,
    member: Option<Seq<char>>,
    conn: u64,
    request: RequestView,
    fresh: Seq<char>,
    clock: u64,
    max_save: nat,
    code: Seq<char>,
    i: int,
)
    requires
        rooms.contains_key(code),
        !rooms.contains_key(fresh),
        ({
            let o = step(rooms, member, conn, request, fresh, clock, max_save);
            &&& o.rooms[code].players.len() != rooms[code].players.len()
            &&& 0 <= i < o.rooms[code].players.len()
        }),
    ensures
        ({
            let o = step(rooms, member, conn, request, fresh, clock, max_save);
            &&& o.rooms[code].players.len() == rooms[code].players.len() + 1
            &&& !o.rooms[code].players[i].ready
            &&& o.rooms[code].players[i].save is None
        }),
{
}

/// Leaving a room that has not started leaves nobody in it ready.
pub proof fn law_leaving_resets_ready(
    rooms: Map<Seq<char>, RoomView>,
    code: Seq<char>,
    conn: u64,
    i: int,
)
    requires
        rooms.contains_key(code),
        !rooms[code].started,
        seat_of(rooms[code].players, conn) < rooms[code].players.len(),
        left(rooms, Some(code), conn).rooms.contains_key(code),
        0 <= i < left(rooms, Some(code), conn).rooms[code].players.len(),
    ensures
        !left(rooms, Some(code), conn).rooms[code].players[i].ready,
        left(rooms, Some(code), conn).rooms[code].players[i].save is None,
{
}

/// Once a room has started its seats are frozen: whoever leaves, everyone else
/// keeps theirs, and the seat left is nobody's.
pub proof fn law_started_seats_are_frozen(
    rooms: Map<Seq<char>, RoomView>,
    code: Seq<char>,
    conn: u64,
    i: int,
)
    requires
        rooms.contains_key(code),
        rooms[code].started,
        left(rooms, Some(code), conn).rooms.contains_key(code),
        0 <= i < rooms[code].players.len(),
    ensures
        ({
            let now = left(rooms, Some(code), conn).rooms[code];
            &&& now.started
            &&& now.players.len() == rooms[code].players.len()
            &&& i != seat_of(rooms[code].players, conn) ==> now.players[i]
                == rooms[code].players[i]
            &&& i == seat_of(rooms[code].players, conn) ==> now.players[i].gone
        }),
{
}

/// A room with nobody left in it is closed.
pub proof fn law_the_last_to_leave_closes_the_room(
    rooms: Map<Seq<char>, RoomView>,
    code: Seq<char>,
    conn: u64,
)
    requires
        rooms.contains_key(code),
        room_ok(rooms[code]),
        forall|i: int|
            0 <= i < rooms[code].players.len() && (#[trigger] rooms[code].players[i]).conn != conn
                ==> rooms[code].players[i].gone,
    ensures
        !left(rooms, Some(code), conn).rooms.contains_key(code),
{
    let room = rooms[code];
    lemma_seat(room.players, conn);
    lemma_seat_absent(room.players, conn);
    let at = seat_of(room.players, conn) as int;
    if !room.started {
        // Anybody else would be there, on the same connection.
        let other = if at == 0 {
            1int
        } else {
            0int
        };
        if room.players.len() > 1 {
            assert(!room.players[other].gone);
            assert(room.players[0].conn != room.players[1].conn);
            if at > 1 {
                assert(room.players[0].conn != room.players[at].conn);
            }
        }
    } else {
        let now = remaining(room, at);
        assert forall|i: int| 0 <= i < now.len() implies (#[trigger] now[i]).gone by {
            if i != at {
                assert(now[i] == room.players[i]);
                if i < at {
                    assert(room.players[i].conn != room.players[at].conn);
                } else {
                    assert(room.players[at].conn != room.players[i].conn);
                }
            }
        }
    }
}

/// Rooms other than the one a connection is in, or enters, are untouched.
pub proof fn law_other_rooms_are_untouched(
    rooms: Map<Seq<char>, RoomView>,
    member: Option<Seq<char>>,
    conn: u64,
    request: RequestView,
    fresh: Seq<char>,
    clock: u64,
    max_save: nat,
    code: Seq<char>,
)
    requires
        rooms.contains_key(code),
        step(rooms, member, conn, request, fresh, clock, max_save).member != Some(code),
    ensures
        step(rooms, member, conn, request, fresh, clock, max_save).rooms.contains_key(code),
        step(rooms, member, conn, request, fresh, clock, max_save).rooms[code] == rooms[code],
{
}

} // verus!
