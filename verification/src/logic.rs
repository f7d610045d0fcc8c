//! The client's mirror of the game: what a player's program shows, and how
//! keys and the server's messages move it from one view to the next.
//!
//! Like the coordinator, the mirror touches nothing outside itself. A
//! handler is given one [`Message`], changes its view, and says how the
//! program goes on and what it has to send.

use vstd::prelude::*;

use crate::buffer::bytes_as_slice;
use crate::image::{decode, decoded, Raster, HEIGHT, WIDTH};
use crate::lobby::{Action, ClientView, Clients};
use crate::packet::{
    ClientOptions, ClientOptionsView, Packet, PacketView, RoundData, RoundDataView,
};

verus! {

/// How far one key press moves the cursor, in degrees.
pub const STRIDE: i32 = 3;

/// A key, as far as the game tells keys apart.
#[derive(Clone, Copy, Debug, PartialEq, Eq, Structural)]
pub enum Key {
    Char(char),
    Enter,
    Up,
    Down,
    Left,
    Right,
    Other,
}

/// What the player's program is told.
#[derive(Debug, PartialEq)]
pub enum Message {
    Quit,
    Ready,
    Resize,
    Key(Key),
    Packet(Packet),
}

/// The mathematical value of a [`Message`].
pub enum MessageView {
    Quit,
    Ready,
    Resize,
    Key(Key),
    Packet(PacketView),
}

impl View for Message {
    type V = MessageView;

    open spec fn view(&self) -> MessageView {
        match *self {
            Message::Quit => MessageView::Quit,
            Message::Ready => MessageView::Ready,
            Message::Resize => MessageView::Resize,
            Message::Key(key) => MessageView::Key(key),
            Message::Packet(packet) => MessageView::Packet(packet@),
        }
    }
}

/// The message that a key press stands for: `r` votes ready, `c` together
/// with the control key quits, every other key is passed on as it is.
pub fn key_message(key: Key, control: bool) -> (message: Message)
    ensures
        message@ == if key == Key::Char('c') && control {
            MessageView::Quit
        } else if key == Key::Char('r') {
            MessageView::Ready
        } else {
            MessageView::Key(key)
        },
{
    match key {
        Key::Char(c) => {
            if c == 'c' && control {
                Message::Quit
            } else if c == 'r' {
                Message::Ready
            } else {
                Message::Key(key)
            }
        },
        _ => Message::Key(key),
    }
}

/// What the player's program knows of itself and of the lobby.
#[derive(Debug, PartialEq)]
pub struct Client {
    pub id: u32,
    pub options: ClientOptions,
    pub lobby: Clients,
}

/// The mathematical value of a [`Client`].
pub struct ContextView {
    pub id: u32,
    pub options: ClientOptionsView,
    pub lobby: Seq<ClientView>,
}

impl View for Client {
    type V = ContextView;

    open spec fn view(&self) -> ContextView {
        ContextView { id: self.id, options: self.options@, lobby: self.lobby@ }
    }
}

/// The view of the lobby.
#[derive(Debug, PartialEq, Default)]
pub struct Lobby {
    pub clients: Clients,
    pub username: String,
    pub ready: bool,
    pub id: u32,
}

/// The mathematical value of a [`Lobby`].
pub struct LobbyView {
    pub clients: Seq<ClientView>,
    pub username: Seq<char>,
    pub ready: bool,
    pub id: u32,
}

impl View for Lobby {
    type V = LobbyView;

    open spec fn view(&self) -> LobbyView {
        LobbyView {
            clients: self.clients@,
            username: self.username@,
            ready: self.ready,
            id: self.id,
        }
    }
}

/// The view between the notice that a round is loading and its photo.
#[derive(Clone, Copy, Debug, PartialEq, Eq, Structural)]
pub struct Loading;

/// The mathematical value of a [`Raster`].
pub struct RasterView {
    pub width: u32,
    pub height: u32,
    pub pixels: Seq<u8>,
}

impl View for Raster {
    type V = RasterView;

    open spec fn view(&self) -> RasterView {
        RasterView { width: self.width, height: self.height, pixels: self.pixels@ }
    }
}

/// The view of a round in progress: the photo, and the cursor with which
/// the player picks a place. The cursor is in whole degrees, longitude
/// first.
#[derive(Debug, PartialEq)]
pub struct Round {
    pub image: Raster,
    pub image_len: usize,
    pub number: u32,
    pub guessed: bool,
    pub guessing: bool,
    pub cursor: (i32, i32),
}

/// The mathematical value of a [`Round`].
pub struct RoundView {
    pub image: RasterView,
    pub image_len: usize,
    pub number: u32,
    pub guessed: bool,
    pub guessing: bool,
    pub cursor: (i32, i32),
}

impl View for Round {
    type V = RoundView;

    open spec fn view(&self) -> RoundView {
        RoundView {
            image: self.image@,
            image_len: self.image_len,
            number: self.number,
            guessed: self.guessed,
            guessing: self.guessing,
            cursor: self.cursor,
        }
    }
}

/// The view of a round's results.
#[derive(Debug, PartialEq)]
pub struct Results {
    pub ready: bool,
    pub id: u32,
    pub data: RoundData,
    pub lobby: Clients,
}

/// The mathematical value of [`Results`].
pub struct ResultsView {
    pub ready: bool,
    pub id: u32,
    pub data: RoundDataView,
    pub lobby: Seq<ClientView>,
}

impl View for Results {
    type V = ResultsView;

    open spec fn view(&self) -> ResultsView {
        ResultsView { ready: self.ready, id: self.id, data: self.data@, lobby: self.lobby@ }
    }
}

/// What the player's program shows.
#[derive(Debug, PartialEq)]
pub enum State {
    Loading,
    Lobby(Lobby),
    Round(Round),
    Results(Results),
}

/// The mathematical value of a [`State`].
pub enum StateView {
    Loading,
    Lobby(LobbyView),
    Round(RoundView),
    Results(ResultsView),
}

impl View for State {
    type V = StateView;

    open spec fn view(&self) -> StateView {
        match *self {
            State::Loading => StateView::Loading,
            State::Lobby(lobby) => StateView::Lobby(lobby@),
            State::Round(round) => StateView::Round(round@),
            State::Results(results) => StateView::Results(results@),
        }
    }
}

/// How the program goes on after a message.
#[derive(Debug, PartialEq)]
pub enum Response {
    ChangeState(State),
    Quit,
    Unhandled,
    Continue,
}

/// The mathematical value of a [`Response`].
pub enum ResponseView {
    ChangeState(StateView),
    Quit,
    Unhandled,
    Continue,
}

impl View for Response {
    type V = ResponseView;

    open spec fn view(&self) -> ResponseView {
        match *self {
            Response::ChangeState(state) => ResponseView::ChangeState(state@),
            Response::Quit => ResponseView::Quit,
            Response::Unhandled => ResponseView::Unhandled,
            Response::Continue => ResponseView::Continue,
        }
    }
}

/// What the program has to send to the server.
#[derive(Debug, PartialEq)]
pub enum Command {
    /// This message.
    Send(Packet),
    /// A guess at the place where the cursor stands, in whole degrees.
    Guess { longitude: i32, latitude: i32 },
}

/// The mathematical value of a [`Command`].
pub enum CommandView {
    Send(PacketView),
    Guess { longitude: i32, latitude: i32 },
}

impl View for Command {
    type V = CommandView;

    open spec fn view(&self) -> CommandView {
        match *self {
            Command::Send(packet) => CommandView::Send(packet@),
            Command::Guess { longitude, latitude } => CommandView::Guess { longitude, latitude },
        }
    }
}

/// The value of a command that may not be there.
pub open spec fn command_view(command: Option<Command>) -> Option<CommandView> {
    match command {
        Some(command) => Some(command@),
        None => None,
    }
}

/// The lobby view with which the program returns to the lobby.
pub open spec fn back_in_lobby(client: ContextView, lobby: Seq<ClientView>) -> StateView {
    StateView::Lobby(
        LobbyView { clients: lobby, username: client.options.user, ready: false, id: client.id },
    )
}

/// A step of the cursor: `STRIDE` degrees, stopping at the end of `i32`.
pub open spec fn moved(at: i32, forward: bool) -> i32 {
    if forward {
        if at > i32::MAX - STRIDE {
            i32::MAX
        } else {
            (at + STRIDE) as i32
        }
    } else {
        if at < i32::MIN + STRIDE {
            i32::MIN
        } else {
            (at - STRIDE) as i32
        }
    }
}

/// What a view makes of a message: the view and the program's knowledge
/// afterwards, how the program goes on, and what it sends.
pub struct Reaction<V> {
    pub view: V,
    pub client: ContextView,
    pub response: ResponseView,
    pub command: Option<CommandView>,
}

/// The lobby view: a ready vote is toggled and sent; a lobby event brings
/// the new lobby; the notice that a round is loading leads to the loading
/// view.
pub open spec fn lobby_rule(view: LobbyView, client: ContextView, message: MessageView) -> Reaction<
    LobbyView,
> {
    match message {
        MessageView::Ready => Reaction {
            view: LobbyView {
                clients: view.clients,
                username: view.username,
                ready: !view.ready,
                id: view.id,
            },
            client,
            response: ResponseView::Continue,
            command: Some(CommandView::Send(PacketView::WaitingStatus { ready: !view.ready })),
        },
        MessageView::Packet(PacketView::RoundLoading { lobby }) => Reaction {
            view,
            client: ContextView { id: client.id, options: client.options, lobby },
            response: ResponseView::ChangeState(StateView::Loading),
            command: None,
        },
        MessageView::Packet(PacketView::LobbyEvent { action, user, lobby }) => Reaction {
            view: LobbyView {
                clients: lobby,
                username: view.username,
                ready: view.ready,
                id: view.id,
            },
            client,
            response: ResponseView::Continue,
            command: None,
        },
        _ => Reaction { view, client, response: ResponseView::Unhandled, command: None },
    }
}

/// The loading view: the round's photo leads to the round view, with the
/// cursor at the origin; a photo that cannot be decoded ends the program.
pub open spec fn loading_rule(client: ContextView, message: MessageView) -> Reaction<Loading> {
    match message {
        MessageView::Packet(PacketView::Round { number, image }) => Reaction {
            view: Loading,
            client,
            response: match decoded(image, WIDTH, HEIGHT) {
                Some(pixels) => ResponseView::ChangeState(
                    StateView::Round(
                        RoundView {
                            image: RasterView { width: WIDTH, height: HEIGHT, pixels },
                            image_len: image.len() as usize,
                            number,
                            guessed: false,
                            guessing: false,
                            cursor: (0, 0),
                        },
                    ),
                ),
                None => ResponseView::Quit,
            },
            command: None,
        },
        _ => Reaction { view: Loading, client, response: ResponseView::Unhandled, command: None },
    }
}

/// The round view with its cursor elsewhere.
pub open spec fn with_cursor(view: RoundView, cursor: (i32, i32)) -> RoundView {
    RoundView {
        image: view.image,
        image_len: view.image_len,
        number: view.number,
        guessed: view.guessed,
        guessing: view.guessing,
        cursor,
    }
}

/// What a key does in the round view: `s` or space submits the guess, `g`
/// or enter switches between photo and map, the arrows and `i`, `k`, `j`,
/// `l` move the cursor.
pub open spec fn round_key(view: RoundView, key: Key) -> (RoundView, ResponseView, Option<
    CommandView,
>) {
    if key == Key::Char('s') || key == Key::Char(' ') {
        (
            RoundView {
                image: view.image,
                image_len: view.image_len,
                number: view.number,
                guessed: true,
                guessing: view.guessing,
                cursor: view.cursor,
            },
            ResponseView::Continue,
            Some(CommandView::Guess { longitude: view.cursor.0, latitude: view.cursor.1 }),
        )
    } else if key == Key::Char('g') || key == Key::Enter {
        (
            RoundView {
                image: view.image,
                image_len: view.image_len,
                number: view.number,
                guessed: view.guessed,
                guessing: !view.guessing,
                cursor: view.cursor,
            },
            ResponseView::Continue,
            None,
        )
    } else if key == Key::Up || key == Key::Char('i') {
        (
            with_cursor(view, (view.cursor.0, moved(view.cursor.1, true))),
            ResponseView::Continue,
            None,
        )
    } else if key == Key::Down || key == Key::Char('k') {
        (
            with_cursor(view, (view.cursor.0, moved(view.cursor.1, false))),
            ResponseView::Continue,
            None,
        )
    } else if key == Key::Left || key == Key::Char('j') {
        (
            with_cursor(view, (moved(view.cursor.0, false), view.cursor.1)),
            ResponseView::Continue,
            None,
        )
    } else if key == Key::Right || key == Key::Char('l') {
        (
            with_cursor(view, (moved(view.cursor.0, true), view.cursor.1)),
            ResponseView::Continue,
            None,
        )
    } else {
        (view, ResponseView::Unhandled, None)
    }
}

/// The round view: keys move the cursor and submit the guess; the return to
/// the lobby leads to the lobby view, the round's result to the results.
pub open spec fn round_rule(view: RoundView, client: ContextView, message: MessageView) -> Reaction<
    RoundView,
> {
    match message {
        MessageView::Key(key) => Reaction {
            view: round_key(view, key).0,
            client,
            response: round_key(view, key).1,
            command: round_key(view, key).2,
        },
        MessageView::Packet(PacketView::LobbyEvent { action, user, lobby }) => Reaction {
            view,
            client,
            response: if action == Action::Return {
                ResponseView::ChangeState(back_in_lobby(client, lobby))
            } else {
                ResponseView::Unhandled
            },
            command: None,
        },
        MessageView::Packet(PacketView::Guessed { player }) => Reaction {
            view,
            client,
            response: ResponseView::Continue,
            command: None,
        },
        MessageView::Packet(PacketView::Result { round }) => Reaction {
            view,
            client,
            response: ResponseView::ChangeState(
                StateView::Results(
                    ResultsView { ready: false, id: client.id, data: round, lobby: client.lobby },
                ),
            ),
            command: None,
        },
        _ => Reaction { view, client, response: ResponseView::Unhandled, command: None },
    }
}

/// The results view: a ready vote is toggled and sent, `l` asks for the
/// return to the lobby; the notice that a round is loading leads to the
/// loading view, the return to the lobby to the lobby view, and any other
/// lobby event brings the new lobby.
pub open spec fn results_rule(
    view: ResultsView,
    client: ContextView,
    message: MessageView,
) -> Reaction<ResultsView> {
    match message {
        MessageView::Ready => Reaction {
            view: ResultsView {
                ready: !view.ready,
                id: view.id,
                data: view.data,
                lobby: view.lobby,
            },
            client,
            response: ResponseView::Continue,
            command: Some(CommandView::Send(PacketView::WaitingStatus { ready: !view.ready })),
        },
        MessageView::Key(key) => if key == Key::Char('l') {
            Reaction {
                view,
                client,
                response: ResponseView::Continue,
                command: Some(CommandView::Send(PacketView::RequestGameEnd)),
            }
        } else {
            Reaction { view, client, response: ResponseView::Unhandled, command: None }
        },
        MessageView::Packet(PacketView::RoundLoading { lobby }) => Reaction {
            view,
            client: ContextView { id: client.id, options: client.options, lobby },
            response: ResponseView::ChangeState(StateView::Loading),
            command: None,
        },
        MessageView::Packet(PacketView::LobbyEvent { action, user, lobby }) => if action
            == Action::Return {
            Reaction {
                view,
                client,
                response: ResponseView::ChangeState(back_in_lobby(client, lobby)),
                command: None,
            }
        } else {
            Reaction {
                view: ResultsView { ready: view.ready, id: view.id, data: view.data, lobby },
                client,
                response: ResponseView::Continue,
                command: None,
            }
        },
        _ => Reaction { view, client, response: ResponseView::Unhandled, command: None },
    }
}

/// A view that reacts to messages.
pub trait Handler: View + Sized {
    /// What the view makes of a message.
    spec fn rule(view: Self::V, client: ContextView, message: MessageView) -> Reaction<Self::V>;

    /// Reacts to one message: changes the view, and says how the program
    /// goes on and what it has to send.
    fn handle(&mut self, message: Message, client: &mut Client) -> (reply: (
        Response,
        Option<Command>,
    ))
        ensures
            final(self)@ == Self::rule(old(self)@, old(client)@, message@).view,
            final(client)@ == Self::rule(old(self)@, old(client)@, message@).client,
            reply.0@ == Self::rule(old(self)@, old(client)@, message@).response,
            command_view(reply.1) == Self::rule(old(self)@, old(client)@, message@).command,
    ;
}

impl View for Loading {
    type V = Loading;

    open spec fn view(&self) -> Loading {
        *self
    }
}

/// The lobby view with which the program returns to the lobby.
fn lobby_again(client: &Client, lobby: Clients) -> (state: State)
    ensures
        state@ == back_in_lobby(client@, lobby@),
{
    State::Lobby(
        Lobby { clients: lobby, username: client.options.user.clone(), ready: false, id: client.id },
    )
}

impl Handler for Lobby {
    open spec fn rule(view: LobbyView, client: ContextView, message: MessageView) -> Reaction<
        LobbyView,
    > {
        lobby_rule(view, client, message)
    }

    fn handle(&mut self, message: Message, client: &mut Client) -> (reply: (
        Response,
        Option<Command>,
    )) {
        match message {
            Message::Ready => {
                self.ready = !self.ready;
                (
                    Response::Continue,
                    Some(Command::Send(Packet::WaitingStatus { ready: self.ready })),
                )
            },
            Message::Packet(Packet::RoundLoading { lobby }) => {
                client.lobby = lobby;
                (Response::ChangeState(State::Loading), None)
            },
            Message::Packet(Packet::LobbyEvent { action, user, lobby }) => {
                self.clients = lobby;
                (Response::Continue, None)
            },
            _ => (Response::Unhandled, None),
        }
    }
}

impl Handler for Loading {
    open spec fn rule(view: Loading, client: ContextView, message: MessageView) -> Reaction<
        Loading,
    > {
        loading_rule(client, message)
    }

    fn handle(&mut self, message: Message, client: &mut Client) -> (reply: (
        Response,
        Option<Command>,
    )) {
        match message {
            Message::Packet(Packet::Round { number, image }) => {
                let image_len = bytes_as_slice(&image).len();
                match decode(&image, WIDTH, HEIGHT) {
                    Some(raster) => (
                        Response::ChangeState(
                            State::Round(
                                Round {
                                    image: raster,
                                    image_len,
                                    number,
                                    guessed: false,
                                    guessing: false,
                                    cursor: (0, 0),
                                },
                            ),
                        ),
                        None,
                    ),
                    None => (Response::Quit, None),
                }
            },
            _ => (Response::Unhandled, None),
        }
    }
}

/// A step of the cursor.
fn step(at: i32, forward: bool) -> (to: i32)
    ensures
        to == moved(at, forward),
{
    if forward {
        if at > i32::MAX - STRIDE {
            i32::MAX
        } else {
            at + STRIDE
        }
    } else {
        if at < i32::MIN + STRIDE {
            i32::MIN
        } else {
            at - STRIDE
        }
    }
}

impl Round {
    /// Reacts to a key.
    fn key(&mut self, key: Key) -> (reply: (Response, Option<Command>))
        ensures
            final(self)@ == round_key(old(self)@, key).0,
            reply.0@ == round_key(old(self)@, key).1,
            command_view(reply.1) == round_key(old(self)@, key).2,
    {
        match key {
            Key::Char('s') | Key::Char(' ') => {
                self.guessed = true;
                (
                    Response::Continue,
                    Some(Command::Guess { longitude: self.cursor.0, latitude: self.cursor.1 }),
                )
            },
            Key::Char('g') | Key::Enter => {
                self.guessing = !self.guessing;
                (Response::Continue, None)
            },
            Key::Up | Key::Char('i') => {
                self.cursor = (self.cursor.0, step(self.cursor.1, true));
                (Response::Continue, None)
            },
            Key::Down | Key::Char('k') => {
                self.cursor = (self.cursor.0, step(self.cursor.1, false));
                (Response::Continue, None)
            },
            Key::Left | Key::Char('j') => {
                self.cursor = (step(self.cursor.0, false), self.cursor.1);
                (Response::Continue, None)
            },
            Key::Right | Key::Char('l') => {
                self.cursor = (step(self.cursor.0, true), self.cursor.1);
                (Response::Continue, None)
            },
            _ => (Response::Unhandled, None),
        }
    }
}

impl Handler for Round {
    open spec fn rule(view: RoundView, client: ContextView, message: MessageView) -> Reaction<
        RoundView,
    > {
        round_rule(view, client, message)
    }

    fn handle(&mut self, message: Message, client: &mut Client) -> (reply: (
        Response,
        Option<Command>,
    )) {
        match message {
            Message::Key(key) => self.key(key),
            Message::Packet(Packet::LobbyEvent { action, user, lobby }) => {
                if action == Action::Return {
                    (Response::ChangeState(lobby_again(client, lobby)), None)
                } else {
                    (Response::Unhandled, None)
                }
            },
            Message::Packet(Packet::Guessed { player }) => (Response::Continue, None),
            Message::Packet(Packet::Result { round }) => (
                Response::ChangeState(
                    State::Results(
                        Results {
                            ready: false,
                            id: client.id,
                            data: round,
                            lobby: client.lobby.clone(),
                        },
                    ),
                ),
                None,
            ),
            _ => (Response::Unhandled, None),
        }
    }
}

impl Handler for Results {
    open spec fn rule(view: ResultsView, client: ContextView, message: MessageView) -> Reaction<
        ResultsView,
    > {
        results_rule(view, client, message)
    }

    fn handle(&mut self, message: Message, client: &mut Client) -> (reply: (
        Response,
        Option<Command>,
    )) {
        match message {
            Message::Ready => {
                self.ready = !self.ready;
                (
                    Response::Continue,
                    Some(Command::Send(Packet::WaitingStatus { ready: self.ready })),
                )
            },
            Message::Key(key) => {
                if key == Key::Char('l') {
                    (Response::Continue, Some(Command::Send(Packet::RequestGameEnd)))
                } else {
                    (Response::Unhandled, None)
                }
            },
            Message::Packet(Packet::RoundLoading { lobby }) => {
                client.lobby = lobby;
                (Response::ChangeState(State::Loading), None)
            },
            Message::Packet(Packet::LobbyEvent { action, user, lobby }) => {
                if action == Action::Return {
                    (Response::ChangeState(lobby_again(client, lobby)), None)
                } else {
                    self.lobby = lobby;
                    (Response::Continue, None)
                }
            },
            _ => (Response::Unhandled, None),
        }
    }
}

/// What the program as a whole makes of a message: the view and the
/// program's knowledge afterwards, whether the program goes on, and what it
/// sends.
///
/// The view in charge reacts; where it asks for another view, that view is
/// shown. The program ends when it is told to quit or when the view says
/// so. A resize changes nothing.
pub open spec fn advanced(state: StateView, client: ContextView, message: MessageView) -> (
    StateView,
    ContextView,
    bool,
    Option<CommandView>,
) {
    if message is Quit {
        (state, client, false, None)
    } else if message is Resize {
        (state, client, true, None)
    } else {
        match state {
            StateView::Lobby(view) => {
                let reaction = lobby_rule(view, client, message);
                settled(StateView::Lobby(reaction.view), reaction.client, reaction.response, reaction.command)
            },
            StateView::Loading => {
                let reaction = loading_rule(client, message);
                settled(StateView::Loading, reaction.client, reaction.response, reaction.command)
            },
            StateView::Round(view) => {
                let reaction = round_rule(view, client, message);
                settled(StateView::Round(reaction.view), reaction.client, reaction.response, reaction.command)
            },
            StateView::Results(view) => {
                let reaction = results_rule(view, client, message);
                settled(StateView::Results(reaction.view), reaction.client, reaction.response, reaction.command)
            },
        }
    }
}

/// The program after a view has reacted.
pub open spec fn settled(
    state: StateView,
    client: ContextView,
    response: ResponseView,
    command: Option<CommandView>,
) -> (StateView, ContextView, bool, Option<CommandView>) {
    match response {
        ResponseView::ChangeState(next) => (next, client, true, command),
        ResponseView::Quit => (state, client, false, command),
        _ => (state, client, true, command),
    }
}

impl State {
    /// Lets the view in charge react to one message and shows the view
    /// that it asks for. Says whether the program goes on, and what it has
    /// to send.
    pub fn advance(&mut self, message: Message, client: &mut Client) -> (reply: (
        bool,
        Option<Command>,
    ))
        ensures
            final(self)@ == advanced(old(self)@, old(client)@, message@).0,
            final(client)@ == advanced(old(self)@, old(client)@, message@).1,
            reply.0 == advanced(old(self)@, old(client)@, message@).2,
            command_view(reply.1) == advanced(old(self)@, old(client)@, message@).3,
    {
        match message {
            Message::Quit => {
                return (false, None);
            },
            Message::Resize => {
                return (true, None);
            },
            _ => {},
        }
        let (response, command) = match self {
            State::Lobby(view) => view.handle(message, client),
            State::Loading => {
                let mut view = Loading;
                view.handle(message, client)
            },
            State::Round(view) => view.handle(message, client),
            State::Results(view) => view.handle(message, client),
        };
        match response {
            Response::ChangeState(next) => {
                *self = next;
                (true, command)
            },
            Response::Quit => (false, command),
            _ => (true, command),
        }
    }
}

} // verus!
