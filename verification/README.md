# Orewar

A real-time game for up to four players on one field. Each commands a tank and a
miner from a corner of the map: the miner mines ore, ore buys upgrades, and the
last player on the field wins.

This crate is the part of the game that decides. Every function in `src/` has a
contract, and Verus proves that the code meets it.

## How it is split

`src/` is the library. It decides and never measures: who is let in, what an
order does, what a shell hits, who is driving, what a purchase costs, when a
match is over, what a snapshot holds, what is on screen. It holds no floating
point and does no input or output.

`app/` is the program around it: sockets, windows, meshes, and the vehicle
physics. It measures distances, bearings and times, and hands them over.

A measurement crosses as a rank. A rank is an integer that orders exactly as the
float it came from does, so the library can compare measurements, keep the
nearest, and pass a value on unchanged. It never adds two of them up.

## The modules

| | |
|---|---|
| `measure`, `protocol`, `rules` | ranks, messages, and the numbers of the game |
| `player`, `game` | who is in a match, and joining, buying, launching, restarting |
| `drive`, `collide`, `weapons`, `shells`, `combat` | one tick of moving and shooting |
| `economy`, `capture`, `respawn`, `tick` | mining, taking a miner, coming back, and the order of a tick |
| `snapshot` | what one client is told |
| `laws`, `alike` | what holds of a match whatever happens in it, and that one fed the same is the same |
| `server`, `clock`, `console` | connections, the log, the tick clock, the command line |
| `link`, `state`, `predict` | the client's end: the handshake, interpolation, prediction |
| `controls`, `menu`, `connect`, `hosting` | keys, menus, the connect screen, the host's window |
| `hud`, `scene`, `camera`, `text`, `wording` | what is put on screen, and how it is worded |

## What is taken on trust

`text` holds what is believed without proof of the standard library: that
`String::push` adds its character, and that quoting a string and turning one to
upper case depend on the string alone.

## Running it

`orewar` plays, `orewar server` hosts from a terminal, and `orewar host` hosts
from a window. The program links `orewar_shared`, which holds the wire format,
the reliability layer, world generation and the vehicle physics.

Bevy is the program's alone: the library uses none of it. `Cargo.toml` names its
core, which is quick to build. Drawing takes more of its features: `bevy_pbr`,
`bevy_ui`, `bevy_ui_render`, `bevy_text` and `default_font` for what is on
screen, and `bevy_winit` to open a window.
