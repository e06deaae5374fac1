//! What the title screen does with a click on one of its labels.

use vstd::prelude::*;

verus! {

/// The page of the musician.
pub const MUSIC_BY: &'static str = "http://pxzel.com/";

/// The page of the artist.
pub const ART_BY: &'static str = "https://whitevault.tv/";

/// The page of the programmers.
pub const CODE_BY: &'static str = "https://community.khonsulabs.com/";

/// What the title screen tells the application.
#[derive(Clone, Copy, Debug, PartialEq, Eq, Structural)]
pub enum TitleScreenEvent {
    StartGame,
}

/// Which label of the title screen was clicked.
#[derive(Clone, Copy, Debug, PartialEq, Eq, Structural)]
pub enum Message {
    MusicByClicked,
    ArtByClicked,
    CodeByClicked,
    StartClicked,
}

/// What a click on the title screen leads to.
#[derive(Clone, Copy, Debug, PartialEq, Eq)]
pub enum TitleAction {
    /// The page at this address is to be opened.
    Open(&'static str),
    /// The application is to be told.
    Emit(TitleScreenEvent),
}

/// What `message` leads to: a click on a credit opens its page, and a
/// click on the button starts the game.
pub open spec fn action_for(message: Message) -> TitleAction {
    match message {
        Message::MusicByClicked => TitleAction::Open(MUSIC_BY),
        Message::ArtByClicked => TitleAction::Open(ART_BY),
        Message::CodeByClicked => TitleAction::Open(CODE_BY),
        Message::StartClicked => TitleAction::Emit(TitleScreenEvent::StartGame),
    }
}

/// What `message` leads to.
pub fn receive_message(message: Message) -> (action: TitleAction)
    ensures
        action == action_for(message),
{
    match message {
        Message::MusicByClicked => TitleAction::Open(MUSIC_BY),
        Message::ArtByClicked => TitleAction::Open(ART_BY),
        Message::CodeByClicked => TitleAction::Open(CODE_BY),
        Message::StartClicked => TitleAction::Emit(TitleScreenEvent::StartGame),
    }
}

} // verus!
