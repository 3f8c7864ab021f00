//! Messages between clients and the server, and who receives what.
use crate::geometry::{Point, Velocity};
use crate::map::{GameMap, MapId, MapSettings, MapView};
use vstd::prelude::*;

verus! {

/// Identifier of a connection, stable for its lifetime.
#[derive(Clone, Copy, Debug, PartialEq, Eq, Hash, Structural)]
pub struct ClientId(pub u64);

/// The way a player faces.
#[derive(Clone, Copy, Debug, PartialEq, Eq, Hash, Structural)]
pub enum Direction {
    North,
    South,
    East,
    West,
}

/// A line of chat, tagged with its channel.
#[derive(Debug)]
pub enum ChatMessage {
    /// A notice from the server.
    Server(String),
    /// A player speaking.
    Say(String),
}

impl Clone for ChatMessage {
    fn clone(&self) -> (r: Self)
        ensures
            r == *self,
    {
        match self {
            ChatMessage::Server(t) => ChatMessage::Server(t.clone()),
            ChatMessage::Say(t) => ChatMessage::Say(t.clone()),
        }
    }
}

/// What other clients learn of a player.
#[derive(Debug)]
pub struct PlayerSummary {
    pub name: String,
    pub sprite: u32,
    pub position: Point,
    pub direction: Direction,
}

impl Clone for PlayerSummary {
    fn clone(&self) -> (r: Self)
        ensures
            r == *self,
    {
        PlayerSummary {
            name: self.name.clone(),
            sprite: self.sprite,
            position: self.position,
            direction: self.direction,
        }
    }
}

/// A request from a client.
#[derive(Debug)]
pub enum ClientMessage {
    /// Handshake: display name and sprite.
    Hello(String, u32),
    /// A chat line.
    Message(String),
    /// Asks for the full data of the player's current map.
    RequestMap,
    /// Replaces the player's current map.
    SaveMap(GameMap),
    /// The player's own movement.
    Move { position: Point, direction: Direction, velocity: Option<Velocity> },
    /// Moves the player to a map, optionally to a position on it.
    Warp(MapId, Option<Point>),
    /// Asks for what the map editor needs.
    MapEditor,
}

/// An event sent to clients.
#[derive(Debug)]
pub enum ServerMessage {
    /// The connection's assigned identifier.
    Hello(ClientId),
    Message(ChatMessage),
    MapData(GameMap),
    PlayerJoined(ClientId, PlayerSummary),
    PlayerLeft(ClientId),
    PlayerMove {
        client_id: ClientId,
        position: Point,
        direction: Direction,
        velocity: Option<Velocity>,
    },
    /// The receiver is now on this map, at this revision.
    ChangeMap(MapId, u64),
    MapEditor {
        maps: Vec<(MapId, String)>,
        id: MapId,
        width: u32,
        height: u32,
        settings: MapSettings,
    },
}

/// A [`ServerMessage`] as a mathematical value.
pub enum ServerEvent {
    Hello(ClientId),
    Message(ChatMessage),
    MapData(MapView),
    PlayerJoined(ClientId, PlayerSummary),
    PlayerLeft(ClientId),
    PlayerMove {
        client_id: ClientId,
        position: Point,
        direction: Direction,
        velocity: Option<Velocity>,
    },
    ChangeMap(MapId, u64),
    MapEditor {
        maps: Seq<(MapId, String)>,
        id: MapId,
        width: u32,
        height: u32,
        settings: MapSettings,
    },
}

impl View for ServerMessage {
    type V = ServerEvent;

    open spec fn view(&self) -> ServerEvent {
        match self {
            ServerMessage::Hello(c) => ServerEvent::Hello(*c),
            ServerMessage::Message(m) => ServerEvent::Message(*m),
            ServerMessage::MapData(m) => ServerEvent::MapData(m@),
            ServerMessage::PlayerJoined(c, p) => ServerEvent::PlayerJoined(*c, *p),
            ServerMessage::PlayerLeft(c) => ServerEvent::PlayerLeft(*c),
            ServerMessage::PlayerMove { client_id, position, direction, velocity } => {
                ServerEvent::PlayerMove {
                    client_id: *client_id,
                    position: *position,
                    direction: *direction,
                    velocity: *velocity,
                }
            },
            ServerMessage::ChangeMap(m, r) => ServerEvent::ChangeMap(*m, *r),
            ServerMessage::MapEditor { maps, id, width, height, settings } => {
                ServerEvent::MapEditor {
                    maps: maps@,
                    id: *id,
                    width: *width,
                    height: *height,
                    settings: *settings,
                }
            },
        }
    }
}

/// Who receives an outbound event.
#[derive(Debug)]
pub enum Recipients {
    Only(ClientId),
    List(Vec<ClientId>),
    Exclude(ClientId),
    Everybody,
}

/// [`Recipients`] as a mathematical value.
pub enum Audience {
    Only(ClientId),
    List(Seq<ClientId>),
    Exclude(ClientId),
    Everybody,
}

impl View for Recipients {
    type V = Audience;

    open spec fn view(&self) -> Audience {
        match self {
            Recipients::Only(c) => Audience::Only(*c),
            Recipients::List(v) => Audience::List(v@),
            Recipients::Exclude(c) => Audience::Exclude(*c),
            Recipients::Everybody => Audience::Everybody,
        }
    }
}

/// An event and who it goes to.
#[derive(Debug)]
pub struct Message {
    pub to: Recipients,
    pub message: ServerMessage,
}

/// A [`Message`] as a mathematical value.
pub struct Outbound {
    pub to: Audience,
    pub event: ServerEvent,
}

impl View for Message {
    type V = Outbound;

    open spec fn view(&self) -> Outbound {
        Outbound { to: self.to@, event: self.message@ }
    }
}

/// Does connection `k` receive an event sent to `a`?
pub open spec fn reaches(a: Audience, k: ClientId) -> bool {
    match a {
        Audience::Only(c) => c == k,
        Audience::List(s) => s.contains(k),
        Audience::Exclude(c) => c != k,
        Audience::Everybody => true,
    }
}

impl Message {
    /// An event for one connection.
    pub fn only(client: ClientId, message: ServerMessage) -> (r: Message)
        ensures
            r@ == (Outbound { to: Audience::Only(client), event: message@ }),
    {
        Message { to: Recipients::Only(client), message }
    }

    /// An event for each connection of a list.
    pub fn list(clients: Vec<ClientId>, message: ServerMessage) -> (r: Message)
        ensures
            r@ == (Outbound { to: Audience::List(clients@), event: message@ }),
    {
        Message { to: Recipients::List(clients), message }
    }

    /// An event for every connection but one.
    pub fn exclude(client: ClientId, message: ServerMessage) -> (r: Message)
        ensures
            r@ == (Outbound { to: Audience::Exclude(client), event: message@ }),
    {
        Message { to: Recipients::Exclude(client), message }
    }

    /// An event for every connection.
    pub fn everybody(message: ServerMessage) -> (r: Message)
        ensures
            r@ == (Outbound { to: Audience::Everybody, event: message@ }),
    {
        Message { to: Recipients::Everybody, message }
    }
}

/// What the transport hands to the server.
#[derive(Debug)]
pub enum NetworkSignal {
    Connected(ClientId),
    Disconnected(ClientId),
    Message(ClientId, ClientMessage),
}

} // verus!
