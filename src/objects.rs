//! The domain records that travel on the bus as payloads.
use vstd::prelude::*;

verus! {

/// What a device is able to do.
#[derive(Debug, Clone, Copy, PartialEq, Eq, Structural)]
pub enum DeviceAction {
    Light,
    LightDim,
    LightColor,
    ShadowOpen,
    ShadowAngle,
    Temperature,
}

/// A named group of devices.
#[derive(Debug, Clone)]
pub struct Room {
    pub id: u32,
    pub name: String,
    pub devices: Vec<u8>,
}

/// A named group of rooms.
#[derive(Debug, Clone)]
pub struct Appartement {
    pub id: u32,
    pub name: String,
    pub rooms: Vec<u8>,
}

/// Asks for a device to be removed.
#[derive(Debug, Clone)]
pub struct RemoveDeviceMessage {
    pub timestamp: u32,
    pub device_id: u32,
}

/// Asks for a device to be renamed.
#[derive(Debug, Clone)]
pub struct RenameDeviceMessage {
    pub timestamp: u32,
    pub device_id: u32,
    pub name: String,
}

/// Lists every room.
#[derive(Debug, Clone)]
pub struct AllRoomsMessage {
    pub timestamp: u32,
    pub rooms: Vec<Room>,
}

/// Asks for a room to be added.
#[derive(Debug, Clone)]
pub struct AddRoomMessage {
    pub timestamp: u32,
    pub room: Room,
}

/// Asks for a room to be renamed.
#[derive(Debug, Clone)]
pub struct RenameRoomMessage {
    pub timestamp: u32,
    pub room_id: u32,
    pub name: String,
}

/// Asks for a room to be removed.
#[derive(Debug, Clone)]
pub struct RemoveRoomMessage {
    pub timestamp: u32,
    pub room_id: u32,
}

/// Asks for a device to be put in a room.
#[derive(Debug, Clone)]
pub struct RoomAddDevicesMessage {
    pub timestamp: u32,
    pub room_id: u32,
    pub device_id: u32,
}

/// Asks for a device to be taken out of a room.
#[derive(Debug, Clone)]
pub struct RoomRemoveDevicesMessage {
    pub timestamp: u32,
    pub room_id: u32,
    pub device_id: u32,
}

/// Lists every appartement.
#[derive(Debug, Clone)]
pub struct AllAppartementsMessage {
    pub timestamp: u32,
    pub rooms: Vec<Appartement>,
}

/// Asks for a room to be put in an appartement.
#[derive(Debug, Clone)]
pub struct AppartementAddRoomMessage {
    pub timestamp: u32,
    pub appartement_id: u32,
    pub room_id: u32,
}

/// Asks for a room to be taken out of an appartement.
#[derive(Debug, Clone)]
pub struct AppartementRemoveRoomMessage {
    pub timestamp: u32,
    pub appartement_id: u32,
    pub room_id: u32,
}

} // verus!
