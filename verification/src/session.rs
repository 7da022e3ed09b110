//! The per-message session step.
//!
//! A transport (console loop, chat connection) receives inbound events, each
//! carrying a username and free text.  [`handle_message`] is the decision
//! core of that loop: it advances the player's lifecycle or game through the
//! orchestrator and returns the replies the transport should render and
//! send — after releasing any lock it holds, never inside the critical
//! section.
//!
//! The command grammar is the transports': in the lobby, `/createGame` and
//! `/join <code>`; in a game, `/guess <word>`.  Anything else is ignored,
//! as are refused guesses (the submitter is already waiting on the round);
//! a refused join is answered with the reason.

use vstd::prelude::*;

use crate::error::AppError;
use crate::game::GameView;
use crate::game::Outcome;
use crate::game::duplicate_guess;
use crate::game::game_won;
use crate::game::names_of;
use crate::game::outcome_of;
use crate::game::player_slot;
use crate::game::rounds_after_guess;
use crate::player::PlayerStatus;
use crate::player::PlayerView;
use crate::player::StatusView;
use crate::text::read_second_token;
use crate::text::second_token;
use crate::text::starts_with;
use crate::text::text_starts_with;
use crate::word_game::WordGame;
use crate::word_game::record_or_new;
use crate::word_game::sent_to_lobby;

verus! {

/// What a reply says, before the transport renders it as text.
#[derive(Debug)]
pub enum ReplyKind {
    /// Ask a brand-new player for their name.
    AskName,
    /// Greet a player who just introduced themselves, by their shown name.
    Welcome { shown_name: String },
    /// Hand the creator the fresh game's code.
    GameCreated { game_id: String },
    /// Confirm a successful join to the joiner.
    Joined,
    /// Tell an earlier member that the named player joined their game.
    PlayerJoined { shown_name: String },
    /// Report why a join was refused.
    JoinFailed { error: AppError },
    /// A `/join` arrived without a game code.
    NeedGameId,
    /// A `/guess` arrived without a word.
    NeedGuess,
    /// Tell a member that the game has been won.
    Win,
}

/// One reply for the transport to send to the player addressed by `to`.
#[derive(Debug)]
pub struct Reply {
    pub to: String,
    pub kind: ReplyKind,
}

/// Mathematical image of a [`ReplyKind`].
pub enum ReplyKindView {
    AskName,
    Welcome(Seq<char>),
    GameCreated(Seq<char>),
    Joined,
    PlayerJoined(Seq<char>),
    JoinFailed(AppError),
    NeedGameId,
    NeedGuess,
    Win,
}

/// Mathematical image of a [`Reply`].
#[verifier::ext_equal]
pub struct ReplyView {
    pub to: Seq<char>,
    pub kind: ReplyKindView,
}

impl View for ReplyKind {
    type V = ReplyKindView;

    open spec fn view(&self) -> ReplyKindView {
        match self {
            ReplyKind::AskName => ReplyKindView::AskName,
            ReplyKind::Welcome { shown_name } => ReplyKindView::Welcome(shown_name@),
            ReplyKind::GameCreated { game_id } => ReplyKindView::GameCreated(game_id@),
            ReplyKind::Joined => ReplyKindView::Joined,
            ReplyKind::PlayerJoined { shown_name } => ReplyKindView::PlayerJoined(shown_name@),
            ReplyKind::JoinFailed { error } => ReplyKindView::JoinFailed(*error),
            ReplyKind::NeedGameId => ReplyKindView::NeedGameId,
            ReplyKind::NeedGuess => ReplyKindView::NeedGuess,
            ReplyKind::Win => ReplyKindView::Win,
        }
    }
}

impl View for Reply {
    type V = ReplyView;

    open spec fn view(&self) -> ReplyView {
        ReplyView { to: self.to@, kind: self.kind@ }
    }
}

/// The views of a reply list.
pub open spec fn reply_views(v: Seq<Reply>) -> Seq<ReplyView> {
    v.map_values(|x: Reply| x@)
}

/// The name a player is shown by: the display name once introduced, the
/// username before.
pub open spec fn shown_of(p: PlayerView) -> Seq<char> {
    match p.display_name {
        Some(n) => n,
        None => p.username,
    }
}

/// How many members are told about a joiner: those listed before the
/// joiner's own first entry.
pub open spec fn notified_count(members: Seq<Seq<char>>, u: Seq<char>) -> int
    decreases members.len(),
{
    if members.len() == 0 {
        0
    } else if members.first() == u {
        0
    } else {
        1 + notified_count(members.drop_first(), u)
    }
}

/// The notified count is the unique `k` with no entry equal to `u` before it
/// and `u` (or the end of the list) at it.
proof fn lemma_notified_count_char(members: Seq<Seq<char>>, u: Seq<char>, k: int)
    requires
        0 <= k <= members.len(),
        forall|j: int| 0 <= j < k ==> (#[trigger] members[j]) != u,
        k == members.len() || members[k] == u,
    ensures
        notified_count(members, u) == k,
    decreases members.len(),
{
    if members.len() > 0 && members.first() != u {
        assert(k >= 1);
        lemma_notified_count_char(members.drop_first(), u, k - 1);
    }
}

/// The join confirmation followed by word-of-the-join to the first `k`
/// listed members.
pub open spec fn join_prefix(u: Seq<char>, members: Seq<Seq<char>>, shown: Seq<char>, k: int) -> Seq<
    ReplyView,
> {
    seq![ReplyView { to: u, kind: ReplyKindView::Joined }] + members.take(k).map_values(
        |m: Seq<char>| ReplyView { to: m, kind: ReplyKindView::PlayerJoined(shown) },
    )
}

/// The replies after a successful join: the joiner is confirmed, and every
/// member listed before the joiner's own entry is told who joined.
pub open spec fn join_replies(u: Seq<char>, members: Seq<Seq<char>>, shown: Seq<char>) -> Seq<
    ReplyView,
> {
    join_prefix(u, members, shown, notified_count(members, u))
}

/// The replies after a winning guess: every member of the finished game is
/// told, in slot order.
pub open spec fn win_replies(members: Seq<Seq<char>>) -> Seq<ReplyView> {
    members.map_values(|m: Seq<char>| ReplyView { to: m, kind: ReplyKindView::Win })
}

/// Advances the session by one inbound event: `username` sent `body`.
///
/// The sender's record is created on first contact.  What happens next is
/// decided by the sender's lifecycle status: a new player is asked to
/// introduce themselves; an introducing player's text becomes their display
/// name; a lobby player may create or join a game; a playing player may
/// guess.  The returned replies are everything the transport must send.
pub fn handle_message(game: &mut WordGame, username: &str, body: &str) -> (r: Vec<Reply>)
    requires
        old(game).inv(),
    ensures
        final(game).inv(),
        ({
            let u = username@;
            let players0 = old(game).store().players;
            let games0 = old(game).store().games;
            let p0 = record_or_new(players0, u);
            let players1 = players0.insert(u, p0);
            let rv = reply_views(r@);
            match p0.status {
                StatusView::New => {
                    &&& final(game).store().games == games0
                    &&& final(game).store().players == players0.insert(
                        u,
                        (PlayerView { status: StatusView::Introducing, ..p0 }),
                    )
                    &&& rv == seq![ReplyView { to: u, kind: ReplyKindView::AskName }]
                },
                StatusView::Introducing => {
                    &&& final(game).store().games == games0
                    &&& final(game).store().players == players0.insert(
                        u,
                        (PlayerView {
                            username: u,
                            display_name: Some(body@),
                            status: StatusView::InLobby,
                        }),
                    )
                    &&& rv == seq![ReplyView { to: u, kind: ReplyKindView::Welcome(body@) }]
                },
                StatusView::InLobby => {
                    if starts_with(body@, "/createGame"@) {
                        &&& rv.len() == 1
                        &&& rv[0].to == u
                        &&& rv[0].kind matches ReplyKindView::GameCreated(code) && {
                            let g = final(game).store().games[code];
                            &&& code.len() == 36
                            &&& final(game).store().games.contains_key(code)
                            &&& g.code == code
                            &&& g.players == seq![u]
                            &&& g.rounds.len() == 0
                            &&& final(game).store().games == games0.insert(code, g)
                            &&& final(game).store().players == players0.insert(
                                u,
                                (PlayerView { status: StatusView::InGame(code), ..p0 }),
                            )
                        }
                    } else if starts_with(body@, "/join"@) {
                        match second_token(body@) {
                            Some(gid) => {
                                if !games0.contains_key(gid) {
                                    &&& final(game).store().games == games0
                                    &&& final(game).store().players == players1
                                    &&& rv == seq![
                                        ReplyView {
                                            to: u,
                                            kind: ReplyKindView::JoinFailed(
                                                AppError::GameNotFound,
                                            ),
                                        },
                                    ]
                                } else if games0[gid].players.len() >= 2 {
                                    &&& final(game).store().games == games0
                                    &&& final(game).store().players == players1
                                    &&& rv == seq![
                                        ReplyView {
                                            to: u,
                                            kind: ReplyKindView::JoinFailed(AppError::GameFull),
                                        },
                                    ]
                                } else {
                                    let ms = games0[gid].players.push(u);
                                    &&& final(game).store().games == games0.insert(
                                        gid,
                                        (GameView { players: ms, ..games0[gid] }),
                                    )
                                    &&& final(game).store().players == players0.insert(
                                        u,
                                        (PlayerView { status: StatusView::InGame(gid), ..p0 }),
                                    )
                                    &&& rv == join_replies(u, ms, shown_of(p0))
                                }
                            },
                            None => {
                                &&& final(game).store().games == games0
                                &&& final(game).store().players == players1
                                &&& rv == seq![
                                    ReplyView { to: u, kind: ReplyKindView::NeedGameId },
                                ]
                            },
                        }
                    } else {
                        &&& final(game).store().games == games0
                        &&& final(game).store().players == players1
                        &&& rv.len() == 0
                    }
                },
                StatusView::InGame(gid) => {
                    if starts_with(body@, "/guess"@) {
                        match second_token(body@) {
                            Some(w) => {
                                let refused = !games0.contains_key(gid) || game_won(games0[gid])
                                    || player_slot(games0[gid].players, u) == -1 || duplicate_guess(
                                    games0[gid].rounds,
                                    player_slot(games0[gid].players, u),
                                );
                                if refused {
                                    &&& final(game).store().games == games0
                                    &&& final(game).store().players == players1
                                    &&& rv.len() == 0
                                } else {
                                    let g0 = games0[gid];
                                    let slot = player_slot(g0.players, u);
                                    let g1 = GameView {
                                        rounds: rounds_after_guess(g0.rounds, slot, w),
                                        ..g0
                                    };
                                    &&& final(game).store().games == games0.insert(gid, g1)
                                    &&& (if outcome_of(g1.rounds) == Outcome::Won {
                                        &&& final(game).store().players == sent_to_lobby(
                                            players1,
                                            g1.players,
                                        )
                                        &&& rv == win_replies(g1.players)
                                    } else {
                                        &&& final(game).store().players == players1
                                        &&& rv.len() == 0
                                    })
                                }
                            },
                            None => {
                                &&& final(game).store().games == games0
                                &&& final(game).store().players == players1
                                &&& rv == seq![ReplyView { to: u, kind: ReplyKindView::NeedGuess }]
                            },
                        }
                    } else {
                        &&& final(game).store().games == games0
                        &&& final(game).store().players == players1
                        &&& rv.len() == 0
                    }
                },
            }
        }),
{
    let ghost p0v = record_or_new(old(game).store().players, username@);
    let player = match game.get_player(username) {
        Ok(p) => p,
        Err(_) => unreached(),
    };
    let mut replies: Vec<Reply> = Vec::new();
    match &player.status {
        PlayerStatus::New => {
            replies.push(Reply { to: username.to_owned(), kind: ReplyKind::AskName });
            match game.change_player_to_introducing(username) {
                Ok(_) => {},
                Err(_) => unreached(),
            }
            proof {
                assert(game.store().players =~= old(game).store().players.insert(
                    username@,
                    (PlayerView { status: StatusView::Introducing, ..p0v }),
                ));
                assert(reply_views(replies@) =~= seq![
                    ReplyView { to: username@, kind: ReplyKindView::AskName },
                ]);
            }
        },
        PlayerStatus::Introducing => {
            let introduced = match game.introduce_player(username, body) {
                Ok(p) => p,
                Err(_) => unreached(),
            };
            replies.push(
                Reply {
                    to: username.to_owned(),
                    kind: ReplyKind::Welcome { shown_name: introduced.shown_name() },
                },
            );
            proof {
                assert(game.store().players =~= old(game).store().players.insert(
                    username@,
                    (PlayerView {
                        username: username@,
                        display_name: Some(body@),
                        status: StatusView::InLobby,
                    }),
                ));
                assert(reply_views(replies@) =~= seq![
                    ReplyView { to: username@, kind: ReplyKindView::Welcome(body@) },
                ]);
            }
        },
        PlayerStatus::InLobby => {
            if text_starts_with(body, "/createGame") {
                let code = match game.new_game(username) {
                    Ok(c) => c,
                    Err(_) => unreached(),
                };
                let ghost cv = code@;
                replies.push(
                    Reply {
                        to: username.to_owned(),
                        kind: ReplyKind::GameCreated { game_id: code },
                    },
                );
                proof {
                    assert(game.store().players =~= old(game).store().players.insert(
                        username@,
                        (PlayerView { status: StatusView::InGame(cv), ..p0v }),
                    ));
                    assert(reply_views(replies@) =~= seq![
                        ReplyView { to: username@, kind: ReplyKindView::GameCreated(cv) },
                    ]);
                }
            } else if text_starts_with(body, "/join") {
                match read_second_token(body) {
                    Some(game_id) => {
                        match game.join_game(username, game_id.as_str()) {
                            Ok(_) => {
                                replies.push(
                                    Reply { to: username.to_owned(), kind: ReplyKind::Joined },
                                );
                                let members = match game.get_players_in_game(game_id.as_str()) {
                                    Ok(v) => v,
                                    Err(_) => unreached(),
                                };
                                let ghost ms = names_of(members@);
                                proof {
                                    assert(reply_views(replies@).len() == replies@.len());
                                    assert(join_prefix(username@, ms, shown_of(p0v), 0).len()
                                        == 1);
                                    assert(reply_views(replies@) =~= join_prefix(
                                        username@,
                                        ms,
                                        shown_of(p0v),
                                        0,
                                    ));
                                }
                                let uname: String = username.to_owned();
                                let mut i: usize = 0;
                                while i < members.len()
                                    invariant
                                        i <= members@.len(),
                                        ms == names_of(members@),
                                        uname@ == username@,
                                        forall|j: int| 0 <= j < i ==> ms[j] != username@,
                                        player@ == p0v,
                                        reply_views(replies@) == join_prefix(
                                            username@,
                                            ms,
                                            shown_of(p0v),
                                            i as int,
                                        ),
                                    ensures
                                        i <= members@.len(),
                                        forall|j: int| 0 <= j < i ==> ms[j] != username@,
                                        i == members@.len() || ms[i as int] == username@,
                                        reply_views(replies@) == join_prefix(
                                            username@,
                                            ms,
                                            shown_of(p0v),
                                            i as int,
                                        ),
                                    decreases members@.len() - i,
                                {
                                    if members[i] == uname {
                                        break;
                                    }
                                    let ghost before = replies@;
                                    replies.push(
                                        Reply {
                                            to: members[i].clone(),
                                            kind: ReplyKind::PlayerJoined {
                                                shown_name: player.shown_name(),
                                            },
                                        },
                                    );
                                    proof {
                                        assert(reply_views(before).len() == before.len());
                                        assert(reply_views(replies@).len() == replies@.len());
                                        assert(join_prefix(
                                            username@,
                                            ms,
                                            shown_of(p0v),
                                            i as int,
                                        ).len() == 1 + i);
                                        assert(join_prefix(
                                            username@,
                                            ms,
                                            shown_of(p0v),
                                            i + 1,
                                        ).len() == 2 + i);
                                        assert forall|k: int|
                                            0 <= k < replies@.len() implies reply_views(
                                            replies@,
                                        )[k] == join_prefix(username@, ms, shown_of(p0v), i + 1)[k]
                                            by {
                                            assert(reply_views(replies@)[k] == replies@[k]@);
                                            if k == 0 {
                                                assert(replies@[0] == before[0]);
                                                assert(reply_views(before)[0] == before[0]@);
                                                assert(reply_views(before)[0] == join_prefix(
                                                    username@,
                                                    ms,
                                                    shown_of(p0v),
                                                    i as int,
                                                )[0]);
                                                assert(join_prefix(
                                                    username@,
                                                    ms,
                                                    shown_of(p0v),
                                                    i as int,
                                                )[0] == (ReplyView {
                                                    to: username@,
                                                    kind: ReplyKindView::Joined,
                                                }));
                                                assert(join_prefix(
                                                    username@,
                                                    ms,
                                                    shown_of(p0v),
                                                    i + 1,
                                                )[0] == (ReplyView {
                                                    to: username@,
                                                    kind: ReplyKindView::Joined,
                                                }));
                                            } else if k < i + 1 {
                                                assert(replies@[k] == before[k]);
                                                assert(reply_views(before)[k] == before[k]@);
                                                assert(reply_views(before)[k] == join_prefix(
                                                    username@,
                                                    ms,
                                                    shown_of(p0v),
                                                    i as int,
                                                )[k]);
                                                assert(join_prefix(
                                                    username@,
                                                    ms,
                                                    shown_of(p0v),
                                                    i as int,
                                                )[k] == (ReplyView {
                                                    to: ms.take(i as int)[k - 1],
                                                    kind: ReplyKindView::PlayerJoined(
                                                        shown_of(p0v),
                                                    ),
                                                }));
                                                assert(join_prefix(
                                                    username@,
                                                    ms,
                                                    shown_of(p0v),
                                                    i + 1,
                                                )[k] == (ReplyView {
                                                    to: ms.take(i + 1)[k - 1],
                                                    kind: ReplyKindView::PlayerJoined(
                                                        shown_of(p0v),
                                                    ),
                                                }));
                                                assert(ms.take(i as int)[k - 1] == ms[k - 1]);
                                                assert(ms.take(i + 1)[k - 1] == ms[k - 1]);
                                            } else {
                                                assert(k == i + 1);
                                                assert(join_prefix(
                                                    username@,
                                                    ms,
                                                    shown_of(p0v),
                                                    i + 1,
                                                )[k] == (ReplyView {
                                                    to: ms.take(i + 1)[k - 1],
                                                    kind: ReplyKindView::PlayerJoined(
                                                        shown_of(p0v),
                                                    ),
                                                }));
                                                assert(ms.take(i + 1)[k - 1] == ms[k - 1]);
                                                assert(ms[k - 1] == names_of(members@)[k - 1]);
                                                assert(names_of(members@)[k - 1] == members@[k
                                                    - 1]@);
                                                assert(replies@[k]@.to == members@[i as int]@);
                                                assert(replies@[k]@.kind
                                                    == ReplyKindView::PlayerJoined(
                                                    shown_of(p0v),
                                                ));
                                            }
                                        }
                                        assert(reply_views(replies@) =~= join_prefix(
                                            username@,
                                            ms,
                                            shown_of(p0v),
                                            i + 1,
                                        ));
                                    }
                                    i = i + 1;
                                }
                                proof {
                                    lemma_notified_count_char(ms, username@, i as int);
                                    assert(reply_views(replies@) =~= join_replies(
                                        username@,
                                        ms,
                                        shown_of(p0v),
                                    ));
                                }
                            },
                            Err(e) => {
                                replies.push(
                                    Reply {
                                        to: username.to_owned(),
                                        kind: ReplyKind::JoinFailed { error: e },
                                    },
                                );
                                proof {
                                    assert(reply_views(replies@) =~= seq![replies@[0]@]);
                                }
                            },
                        }
                    },
                    None => {
                        replies.push(
                            Reply { to: username.to_owned(), kind: ReplyKind::NeedGameId },
                        );
                        proof {
                            assert(reply_views(replies@) =~= seq![
                                ReplyView { to: username@, kind: ReplyKindView::NeedGameId },
                            ]);
                        }
                    },
                }
            }
        },
        PlayerStatus::InGame { game_id } => {
            if text_starts_with(body, "/guess") {
                match read_second_token(body) {
                    Some(word) => {
                        match game.submit_guess(username, game_id.as_str(), word.as_str()) {
                            Ok(Outcome::Won) => {
                                let members = match game.get_players_in_game(game_id.as_str()) {
                                    Ok(v) => v,
                                    Err(_) => unreached(),
                                };
                                let ghost ms = names_of(members@);
                                proof {
                                    assert(reply_views(replies@).len() == replies@.len());
                                    assert(win_replies(ms.take(0)).len() == 0);
                                    assert(reply_views(replies@) =~= win_replies(ms.take(0)));
                                }
                                let mut i: usize = 0;
                                while i < members.len()
                                    invariant
                                        i <= members@.len(),
                                        ms == names_of(members@),
                                        reply_views(replies@) == win_replies(ms.take(i as int)),
                                    decreases members@.len() - i,
                                {
                                    let ghost before = replies@;
                                    replies.push(
                                        Reply { to: members[i].clone(), kind: ReplyKind::Win },
                                    );
                                    proof {
                                        assert(reply_views(before).len() == before.len());
                                        assert(reply_views(replies@).len() == replies@.len());
                                        assert(win_replies(ms.take(i as int)).len() == i as int);
                                        assert(win_replies(ms.take(i + 1)).len() == i + 1);
                                        assert forall|k: int|
                                            0 <= k < replies@.len() implies reply_views(
                                            replies@,
                                        )[k] == win_replies(ms.take(i + 1))[k] by {
                                            assert(reply_views(replies@)[k] == replies@[k]@);
                                            assert(win_replies(ms.take(i + 1))[k]
                                                == (ReplyView {
                                                to: ms.take(i + 1)[k],
                                                kind: ReplyKindView::Win,
                                            }));
                                            assert(ms.take(i + 1)[k] == ms[k]);
                                            if k < i as int {
                                                assert(replies@[k] == before[k]);
                                                assert(reply_views(before)[k] == before[k]@);
                                                assert(reply_views(before)[k] == win_replies(
                                                    ms.take(i as int),
                                                )[k]);
                                                assert(win_replies(ms.take(i as int))[k]
                                                    == (ReplyView {
                                                    to: ms.take(i as int)[k],
                                                    kind: ReplyKindView::Win,
                                                }));
                                                assert(ms.take(i as int)[k] == ms[k]);
                                            } else {
                                                assert(k == i as int);
                                                assert(ms[k] == names_of(members@)[k]);
                                                assert(names_of(members@)[k] == members@[k]@);
                                                assert(replies@[k]@.to == members@[k]@);
                                                assert(replies@[k]@.kind is Win);
                                            }
                                        }
                                        assert(reply_views(replies@) =~= win_replies(
                                            ms.take(i + 1),
                                        ));
                                    }
                                    i = i + 1;
                                }
                                proof {
                                    assert(ms.take(members@.len() as int) =~= ms);
                                    assert(reply_views(replies@) =~= win_replies(ms));
                                }
                            },
                            Ok(_) => {},
                            Err(_) => {},
                        }
                    },
                    None => {
                        replies.push(Reply { to: username.to_owned(), kind: ReplyKind::NeedGuess });
                        proof {
                            assert(reply_views(replies@) =~= seq![
                                ReplyView { to: username@, kind: ReplyKindView::NeedGuess },
                            ]);
                        }
                    },
                }
            }
        },
    }
    replies
}

} // verus!
