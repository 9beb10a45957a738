use parrot::commands::{create_skip_response, SkipResponse};
use parrot::connection::{check_access, check_voice_connections, command_access, Access, Connection};
use parrot::errors::ParrotError;
use parrot::idle::{idle_tick, IdleDecision};
use parrot::queue::queue_page_range;

#[test]
fn connections_relate_the_channels() {
    assert_eq!(check_voice_connections(Some(1), Some(1)), Connection::Mutual(1, 1));
    assert_eq!(check_voice_connections(Some(2), Some(1)), Connection::Separate(1, 2));
    assert_eq!(check_voice_connections(Some(2), None), Connection::User(2));
    assert_eq!(check_voice_connections(None, Some(1)), Connection::Bot(1));
    assert_eq!(check_voice_connections(None, None), Connection::Neither);
}

#[test]
fn commands_ask_for_their_access() {
    assert_eq!(command_access("skip"), Access::Shared);
    assert_eq!(command_access("voteskip"), Access::Shared);
    assert_eq!(command_access("repeatqueue"), Access::Shared);
    assert_eq!(command_access("summon"), Access::Summon);
    assert_eq!(command_access("play"), Access::Join);
    assert_eq!(command_access("superplay"), Access::Join);
    assert_eq!(command_access("queue"), Access::Look);
    assert_eq!(command_access("np"), Access::Look);
    assert_eq!(command_access("version"), Access::Free);
    assert_eq!(command_access("managesources"), Access::Free);
}

#[test]
fn shared_commands_need_the_same_channel() {
    assert_eq!(check_access("skip", Connection::Mutual(1, 1)), Ok(()));
    assert_eq!(check_access("skip", Connection::User(2)), Err(ParrotError::NotConnected));
    assert_eq!(check_access("stop", Connection::Neither), Err(ParrotError::NotConnected));
    assert_eq!(check_access("remove", Connection::Bot(1)), Err(ParrotError::AuthorDisconnected(1)));
    assert_eq!(check_access("clear", Connection::Separate(1, 2)), Err(ParrotError::WrongVoiceChannel));
}

#[test]
fn joining_commands_need_the_author_in_a_channel() {
    assert_eq!(check_access("play", Connection::User(2)), Ok(()));
    assert_eq!(check_access("play", Connection::Mutual(1, 1)), Ok(()));
    assert_eq!(check_access("summon", Connection::Bot(1)), Err(ParrotError::AuthorNotFound));
    assert_eq!(check_access("play", Connection::Bot(1)), Err(ParrotError::WrongVoiceChannel));
    assert_eq!(check_access("superplay", Connection::Separate(1, 2)), Err(ParrotError::AlreadyConnected(1)));
    assert_eq!(check_access("summon", Connection::Neither), Err(ParrotError::AuthorNotFound));
}

#[test]
fn looking_commands_need_the_bot() {
    assert_eq!(check_access("queue", Connection::Bot(1)), Ok(()));
    assert_eq!(check_access("np", Connection::Separate(1, 2)), Ok(()));
    assert_eq!(check_access("queue", Connection::User(2)), Err(ParrotError::NotConnected));
    assert_eq!(check_access("version", Connection::Neither), Ok(()));
}

#[test]
fn idle_counter_leaves_past_the_limit() {
    assert_eq!(idle_tick(5, 3, true), IdleDecision { count: 0, leave: false });
    assert_eq!(idle_tick(0, 2, false), IdleDecision { count: 1, leave: false });
    assert_eq!(idle_tick(1, 2, false), IdleDecision { count: 2, leave: false });
    assert_eq!(idle_tick(2, 2, false), IdleDecision { count: 3, leave: true });
    assert_eq!(idle_tick(usize::MAX, 2, false), IdleDecision { count: 0, leave: true });
}

#[test]
fn skip_response_follows_what_plays() {
    assert_eq!(create_skip_response(true, 3, 3), SkipResponse::SkipTo);
    assert_eq!(create_skip_response(false, 3, 3), SkipResponse::SkipAll);
    assert_eq!(create_skip_response(false, 1, 3), SkipResponse::Skip);
    assert_eq!(create_skip_response(false, 5, 1), SkipResponse::SkipAll);
    assert_eq!(create_skip_response(false, 5, 0), SkipResponse::Skip);
    assert_eq!(create_skip_response(false, 0, 4), SkipResponse::Skip);
}

#[test]
fn page_window_lists_six_pending_tracks() {
    assert_eq!(queue_page_range(13, 0), (1, 7));
    assert_eq!(queue_page_range(13, 1), (7, 13));
    assert_eq!(queue_page_range(13, 2), (13, 13));
    assert_eq!(queue_page_range(1, 0), (1, 1));
    assert_eq!(queue_page_range(0, 0), (0, 0));
    assert_eq!(queue_page_range(10, usize::MAX), (10, 10));
}
