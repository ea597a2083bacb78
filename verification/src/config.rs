//! The commands that keys and buttons are bound to, and the settings.

use vstd::prelude::*;
use crate::keymap::KeyMap;
use crate::mousemap::MouseMap;
use crate::tools::DrawKind;

verus! {

/// What a key or a button can be bound to. Sizes are lengths.
#[derive(Debug, PartialEq, Eq)]
pub enum Command {
    Clear,
    Undo,
    NextColor,
    PrevColor,
    SetColor(usize),
    NextTool,
    PrevTool,
    SetTool(usize),
    ToggleDistance,
    IncreaseSize(u32),
    DecreaseSize(u32),
    TogglePause,
    Execute(String),
    Save,
    Combo(Vec<Command>),
    Nop,
    DrawStart(usize, usize),
}

impl Command {
    /// Whether the command starts a draw.
    pub fn draw_command(&self) -> (r: bool)
        ensures
            r == (*self is DrawStart),
    {
        match self {
            Command::DrawStart(_, _) => true,
            _ => false,
        }
    }
}

/// The settings given on the command line; none where one was not given.
#[derive(Debug, PartialEq, Eq)]
pub struct Args {
    pub size: Option<u32>,
    pub palette: Option<Vec<String>>,
    pub distance: Option<bool>,
    pub background: Option<String>,
    pub text_color: Option<String>,
    pub starting_tool: Option<DrawKind>,
    pub font: Option<String>,
    pub font_size: Option<u32>,
    pub paused: Option<bool>,
    pub scroll_treshold: Option<i32>,
    pub save_on_exit: Option<bool>,
    pub delete_save_on_resume: Option<bool>,
}

/// The settings.
#[derive(Debug, PartialEq, Eq)]
pub struct Config {
    pub size: u32,
    pub palette: Vec<String>,
    pub distance: bool,
    pub scroll_margine: i32,
    pub background: String,
    pub text_color: String,
    pub tools: Vec<DrawKind>,
    pub font: Option<String>,
    pub font_size: u32,
    pub paused: bool,
    pub scroll_threshold: i32,
    pub save_on_exit: bool,
    pub delete_save_on_resume: bool,
    pub key_map: Vec<(KeyMap, Command)>,
    pub mouse_map: Vec<(MouseMap, Command)>,
}

/// The index of the first binding, from `from` on, of a key with its
/// modifiers, or -1.
pub open spec fn key_binding_at(bindings: Seq<(KeyMap, Command)>, key: KeyMap, from: int) -> int
    decreases bindings.len() - from,
{
    if from < 0 || from >= bindings.len() {
        -1
    } else if bindings[from].0.same(key) {
        from
    } else {
        key_binding_at(bindings, key, from + 1)
    }
}

/// The index of the first binding, from `from` on, of a mouse action with
/// its modifiers, or -1.
pub open spec fn mouse_binding_at(
    bindings: Seq<(MouseMap, Command)>,
    action: MouseMap,
    from: int,
) -> int
    decreases bindings.len() - from,
{
    if from < 0 || from >= bindings.len() {
        -1
    } else if bindings[from].0.same(action) {
        from
    } else {
        mouse_binding_at(bindings, action, from + 1)
    }
}

impl Config {
    /// The settings with those given on the command line in the place of
    /// their own. The starting tool and the scroll threshold of the command
    /// line are not taken.
    pub fn overwrite(self, args: Args) -> (cfg: Config)
        ensures
            cfg.size == args.size.unwrap_or(self.size),
            cfg.palette == args.palette.unwrap_or(self.palette),
            cfg.distance == args.distance.unwrap_or(self.distance),
            cfg.background == args.background.unwrap_or(self.background),
            cfg.text_color == args.text_color.unwrap_or(self.text_color),
            cfg.save_on_exit == args.save_on_exit.unwrap_or(self.save_on_exit),
            cfg.delete_save_on_resume == args.delete_save_on_resume.unwrap_or(
                self.delete_save_on_resume,
            ),
            cfg.font == if args.font is Some {
                args.font
            } else {
                self.font
            },
            cfg.font_size == args.font_size.unwrap_or(self.font_size),
            cfg.paused == args.paused.unwrap_or(self.paused),
            cfg.scroll_margine == self.scroll_margine,
            cfg.tools == self.tools,
            cfg.scroll_threshold == self.scroll_threshold,
            cfg.key_map == self.key_map,
            cfg.mouse_map == self.mouse_map,
    {
        let mut cfg = self;
        match args.size {
            Some(size) => {
                cfg.size = size;
            },
            None => {},
        }
        match args.palette {
            Some(palette) => {
                cfg.palette = palette;
            },
            None => {},
        }
        match args.distance {
            Some(distance) => {
                cfg.distance = distance;
            },
            None => {},
        }
        match args.background {
            Some(background) => {
                cfg.background = background;
            },
            None => {},
        }
        match args.text_color {
            Some(text_color) => {
                cfg.text_color = text_color;
            },
            None => {},
        }
        match args.save_on_exit {
            Some(save_on_exit) => {
                cfg.save_on_exit = save_on_exit;
            },
            None => {},
        }
        match args.delete_save_on_resume {
            Some(delete_save_on_resume) => {
                cfg.delete_save_on_resume = delete_save_on_resume;
            },
            None => {},
        }
        match args.font {
            Some(font) => {
                cfg.font = Some(font);
            },
            None => {},
        }
        match args.font_size {
            Some(font_size) => {
                cfg.font_size = font_size;
            },
            None => {},
        }
        match args.paused {
            Some(paused) => {
                cfg.paused = paused;
            },
            None => {},
        }
        cfg
    }

    /// The command bound to a key with its modifiers: that of the first
    /// binding that equals it, the lock keys left aside; none where no
    /// binding does.
    pub fn key_command(&self, key: &KeyMap) -> (command: Option<&Command>)
        ensures
            match command {
                Some(c) => key_binding_at(self.key_map@, *key, 0) >= 0 && *c
                    == self.key_map@[key_binding_at(self.key_map@, *key, 0)].1,
                None => key_binding_at(self.key_map@, *key, 0) < 0,
            },
    {
        let mut i: usize = 0;
        while i < self.key_map.len()
            invariant
                i <= self.key_map@.len(),
                key_binding_at(self.key_map@, *key, 0) == key_binding_at(
                    self.key_map@,
                    *key,
                    i as int,
                ),
            decreases self.key_map@.len() - i,
        {
            if self.key_map[i].0 == *key {
                return Some(&self.key_map[i].1);
            }
            i += 1;
        }
        None
    }

    /// The command bound to a mouse action with its modifiers: that of the
    /// first binding that equals it; none where no binding does.
    pub fn mouse_command(&self, action: &MouseMap) -> (command: Option<&Command>)
        ensures
            match command {
                Some(c) => mouse_binding_at(self.mouse_map@, *action, 0) >= 0 && *c
                    == self.mouse_map@[mouse_binding_at(self.mouse_map@, *action, 0)].1,
                None => mouse_binding_at(self.mouse_map@, *action, 0) < 0,
            },
    {
        let mut i: usize = 0;
        while i < self.mouse_map.len()
            invariant
                i <= self.mouse_map@.len(),
                mouse_binding_at(self.mouse_map@, *action, 0) == mouse_binding_at(
                    self.mouse_map@,
                    *action,
                    i as int,
                ),
            decreases self.mouse_map@.len() - i,
        {
            if self.mouse_map[i].0 == *action {
                return Some(&self.mouse_map[i].1);
            }
            i += 1;
        }
        None
    }
}

} // verus!
