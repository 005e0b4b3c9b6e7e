//! Core logic of a terminal client for the music player daemon: command
//! parsing, key bindings, menus, splitter layouts, the genre tree and the
//! layout file, all verified.
use vstd::prelude::*;

pub mod align;
pub mod client;
pub mod color;
pub mod command;
pub mod command_line;
pub mod describe;
pub mod components;
pub mod event;
pub mod keys;
pub mod layout;
pub mod menu;
pub mod paint;
pub mod player;
pub mod screen;
pub mod splitter;
pub mod styles;
pub mod tagger;
pub mod text;
pub mod track;

verus! {

/// What every component may read: the genre tree, once loaded, and the
/// library of songs, whose indices are the song ids that events carry.
pub struct GlobalState {
    pub style_tree: Option<styles::StyleTree>,
    pub library: Vec<track::Track>,
}

impl GlobalState {
    /// No genre tree and an empty library.
    pub fn new() -> (s: GlobalState)
        ensures
            s.style_tree is None,
            s.library@.len() == 0,
    {
        GlobalState { style_tree: None, library: Vec::new() }
    }
}

/// The settings the client starts with: where to find the genre file,
/// the startup file and the layout file, the player's address, and
/// whether to log events.
pub struct Shellbird<'a> {
    pub genres_path: Option<String>,
    pub sbrc_path: Option<String>,
    pub layout_path: Option<String>,
    pub mpd_ip: &'a str,
    pub mpd_port: &'a str,
    pub debug: bool,
}

impl<'a> Shellbird<'a> {
    pub fn new(
        genres_path: Option<String>,
        sbrc_path: Option<String>,
        layout_path: Option<String>,
        mpd_ip: &'a str,
        mpd_port: &'a str,
        debug: bool,
    ) -> (s: Shellbird<'a>)
        ensures
            s.genres_path == genres_path,
            s.sbrc_path == sbrc_path,
            s.layout_path == layout_path,
            s.mpd_ip == mpd_ip,
            s.mpd_port == mpd_port,
            s.debug == debug,
    {
        Shellbird { genres_path, sbrc_path, layout_path, mpd_ip, mpd_port, debug }
    }
}

} // verus!
