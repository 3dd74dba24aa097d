//! The Ex commands the front end sends on its own: when a session starts or
//! is reloaded, and when the user opens files and folders.
use crate::actions::AppAction;
use crate::font::strings_view;
use crate::value::{RpcValue, ValueView};
use vstd::prelude::*;

verus! {

/// The Lua that gives Neovim a GUI font when its configuration set none
/// (the family `family` at 14 points) and re-applies the configured font
/// and line space, so that the front end hears of them.
pub open spec fn font_bootstrap(family: Seq<char>) -> Seq<char> {
    "lua (function() if not vim.o.guifont or vim.o.guifont == \"\" then vim.o.guifont = \""@
        + family
        + ":h14\" else vim.o.guifont = vim.o.guifont end if vim.o.linespace and vim.o.linespace ~= 0 then vim.o.linespace = vim.o.linespace end end)()"@
}

/// The commands that follow the attach: mouse support everywhere, window
/// titles, then (for a fresh session) the font bootstrap, and a change to
/// the working directory `cwd` when there is one.
pub open spec fn session_command_list(font_family: Option<Seq<char>>, cwd: Option<Seq<char>>) -> Seq<
    Seq<char>,
> {
    seq!["set mouse=a"@, "set title"@] + (match font_family {
        Some(f) => seq![font_bootstrap(f)],
        None => Seq::empty(),
    }) + (match cwd {
        Some(d) => seq!["cd "@ + d],
        None => Seq::empty(),
    })
}

/// The commands sent after attaching to a new session (with the font
/// bootstrap for `font_family`) or to a reloaded one (`None`): see
/// `session_command_list`.
pub fn session_commands(font_family: Option<&str>, cwd: Option<&str>) -> (res: Vec<String>)
    ensures
        strings_view(res@) == session_command_list(
            match font_family {
                Some(f) => Some(f@),
                None => None,
            },
            match cwd {
                Some(d) => Some(d@),
                None => None,
            },
        ),
{
    let mut cmds: Vec<String> = Vec::new();
    cmds.push(String::from_str("set mouse=a"));
    cmds.push(String::from_str("set title"));
    match font_family {
        Some(f) => {
            let mut s = String::from_str(
                "lua (function() if not vim.o.guifont or vim.o.guifont == \"\" then vim.o.guifont = \"",
            );
            s.append(f);
            s.append(
                ":h14\" else vim.o.guifont = vim.o.guifont end if vim.o.linespace and vim.o.linespace ~= 0 then vim.o.linespace = vim.o.linespace end end)()",
            );
            cmds.push(s);
        },
        None => {},
    }
    match cwd {
        Some(d) => {
            cmds.push(String::from_str("cd ").concat(d));
        },
        None => {},
    }
    proof {
        assert(strings_view(cmds@) =~= session_command_list(
            match font_family {
                Some(f) => Some(f@),
                None => None,
            },
            match cwd {
                Some(d) => Some(d@),
                None => None,
            },
        ));
    }
    cmds
}

/// The commands that open `path`, after changing to `cd_dir` when given.
pub open spec fn open_command_list(path: Seq<char>, cd_dir: Option<Seq<char>>) -> Seq<Seq<char>> {
    match cd_dir {
        Some(d) => seq!["cd "@ + d, "edit "@ + path],
        None => seq!["edit "@ + path],
    }
}

/// The commands that open `path` (see `open_command_list`).
pub fn open_commands(path: &str, cd_dir: Option<&str>) -> (res: Vec<String>)
    ensures
        strings_view(res@) == open_command_list(
            path@,
            match cd_dir {
                Some(d) => Some(d@),
                None => None,
            },
        ),
{
    let mut cmds: Vec<String> = Vec::new();
    match cd_dir {
        Some(d) => {
            cmds.push(String::from_str("cd ").concat(d));
        },
        None => {},
    }
    cmds.push(String::from_str("edit ").concat(path));
    proof {
        assert(strings_view(cmds@) =~= open_command_list(
            path@,
            match cd_dir {
                Some(d) => Some(d@),
                None => None,
            },
        ));
    }
    cmds
}

/// The directory to change to before opening a dropped or passed path: the
/// path itself when it is a directory, else its parent when that exists and
/// is not empty.
pub open spec fn open_dir_for(
    path: Seq<char>,
    is_dir: bool,
    parent: Option<Seq<char>>,
    parent_exists: bool,
) -> Option<Seq<char>> {
    if is_dir {
        Some(path)
    } else {
        match parent {
            Some(p) => if parent_exists && p.len() > 0 {
                Some(p)
            } else {
                None
            },
            None => None,
        }
    }
}

/// The directory to change to before opening `path` (see `open_dir_for`);
/// it also becomes the window's working directory.
pub fn open_dir(path: &str, is_dir: bool, parent: Option<&str>, parent_exists: bool) -> (res: Option<
    String,
>)
    ensures
        match res {
            Some(d) => open_dir_for(
                path@,
                is_dir,
                match parent {
                    Some(p) => Some(p@),
                    None => None,
                },
                parent_exists,
            ) == Some(d@),
            None => open_dir_for(
                path@,
                is_dir,
                match parent {
                    Some(p) => Some(p@),
                    None => None,
                },
                parent_exists,
            ) is None,
        },
{
    if is_dir {
        Some(String::from_str(path))
    } else {
        match parent {
            Some(p) => if parent_exists && !p.is_empty() {
                Some(String::from_str(p))
            } else {
                None
            },
            None => None,
        }
    }
}

/// What the session check before a reload reports, from its reply `v` (a
/// map): whether the session is to be restored (`should_restore`, a
/// boolean, false when missing) and the directory it worked in (`cwd`, a
/// non-empty string), each as the last entry with that key gives it.
pub open spec fn session_check_of(entries: Seq<(ValueView, ValueView)>) -> (bool, Option<Seq<char>>)
    decreases entries.len(),
{
    if entries.len() == 0 {
        (false, None)
    } else {
        let prev = session_check_of(entries.drop_last());
        let (k, v) = entries.last();
        if k.to_str() == Some("should_restore"@) {
            (
                match v.to_bool() {
                    Some(b) => b,
                    None => false,
                },
                prev.1,
            )
        } else if k.to_str() == Some("cwd"@) {
            match v.to_str() {
                Some(s) => if s.len() > 0 {
                    (prev.0, Some(s))
                } else {
                    prev
                },
                None => prev,
            }
        } else {
            prev
        }
    }
}

/// Reads the reply of the session check that runs before a reload: whether
/// to restore the session, and the directory to start the new session in,
/// which is `fallback` when the reply names none.  A reply that is no map
/// restores nothing.
pub fn read_session_check(reply: &RpcValue, fallback: Option<String>) -> (res: (bool, Option<String>))
    ensures
        ({
            let (restore, dir) = match reply@.to_map() {
                Some(entries) => session_check_of(entries),
                None => (false, None),
            };
            &&& res.0 == restore
            &&& match dir {
                Some(d) => res.1 matches Some(r) && r@ == d,
                None => res.1 == fallback,
            }
        }),
{
    let mut restore = false;
    let mut dir: Option<String> = None;
    match reply.as_map() {
        Some(entries) => {
            let ghost es = crate::value::entries_view(entries@);
            let mut i: usize = 0;
            while i < entries.len()
                invariant
                    i <= entries@.len(),
                    es == crate::value::entries_view(entries@),
                    ({
                        let st = session_check_of(es.take(i as int));
                        &&& restore == st.0
                        &&& match st.1 {
                            Some(d) => dir matches Some(r) && r@ == d,
                            None => dir is None,
                        }
                    }),
                decreases entries@.len() - i,
            {
                proof {
                    assert(es.take(i + 1).drop_last() =~= es.take(i as int));
                    assert(es.take(i + 1).last() == es[i as int]);
                    assert(es[i as int] == (entries@[i as int].0@, entries@[i as int].1@));
                }
                let (k, v) = &entries[i];
                match k.as_str() {
                    Some(key) => {
                        if crate::text::str_eq(key, "should_restore") {
                            restore = match v.as_bool() {
                                Some(b) => b,
                                None => false,
                            };
                        } else if crate::text::str_eq(key, "cwd") {
                            match v.as_str() {
                                Some(s) => {
                                    if !s.is_empty() {
                                        dir = Some(String::from_str(s));
                                    }
                                },
                                None => {},
                            }
                        }
                    },
                    None => {},
                }
                i = i + 1;
            }
            proof {
                assert(es.take(entries@.len() as int) =~= es);
            }
        },
        None => {},
    }
    match dir {
        Some(d) => (restore, Some(d)),
        None => (restore, fallback),
    }
}


/// The Lua command that carries out an editing command in Neovim: copy and
/// cut work on a visual selection through the `+` register; select all,
/// undo and redo first leave insert or replace mode.  Other commands have
/// none.
pub open spec fn edit_lua(action: AppAction) -> Option<Seq<char>> {
    match action {
        AppAction::Copy => Some("lua (function()\n            local mode = vim.api.nvim_get_mode().mode\n            if mode:find(\"[vV\\x16]\") then\n                vim.cmd('normal! \"+y')\n            end\n        end)()"@),
        AppAction::Cut => Some("lua (function()\n            local mode = vim.api.nvim_get_mode().mode\n            if mode:find(\"[vV\\x16]\") then\n                vim.cmd('normal! \"+d')\n            end\n        end)()"@),
        AppAction::SelectAll => Some("lua (function()\n            local mode = vim.api.nvim_get_mode().mode\n            if mode:find(\"[iR]\") then\n                vim.cmd('stopinsert')\n            end\n            vim.cmd('normal! ggVG')\n        end)()"@),
        AppAction::Undo => Some("lua (function()\n            local mode = vim.api.nvim_get_mode().mode\n            if mode:find(\"[iR]\") then\n                vim.cmd('stopinsert')\n            end\n            pcall(vim.cmd, 'undo')\n        end)()"@),
        AppAction::Redo => Some("lua (function()\n            local mode = vim.api.nvim_get_mode().mode\n            if mode:find(\"[iR]\") then\n                vim.cmd('stopinsert')\n            end\n            pcall(vim.cmd, 'redo')\n        end)()"@),
        _ => None,
    }
}

/// The Ex command for an editing command (see `edit_lua`).
pub fn edit_command(action: AppAction) -> (res: Option<&'static str>)
    ensures
        match res {
            Some(c) => edit_lua(action) == Some(c@),
            None => edit_lua(action) is None,
        },
{
    match action {
        AppAction::Copy => Some("lua (function()\n            local mode = vim.api.nvim_get_mode().mode\n            if mode:find(\"[vV\\x16]\") then\n                vim.cmd('normal! \"+y')\n            end\n        end)()"),
        AppAction::Cut => Some("lua (function()\n            local mode = vim.api.nvim_get_mode().mode\n            if mode:find(\"[vV\\x16]\") then\n                vim.cmd('normal! \"+d')\n            end\n        end)()"),
        AppAction::SelectAll => Some("lua (function()\n            local mode = vim.api.nvim_get_mode().mode\n            if mode:find(\"[iR]\") then\n                vim.cmd('stopinsert')\n            end\n            vim.cmd('normal! ggVG')\n        end)()"),
        AppAction::Undo => Some("lua (function()\n            local mode = vim.api.nvim_get_mode().mode\n            if mode:find(\"[iR]\") then\n                vim.cmd('stopinsert')\n            end\n            pcall(vim.cmd, 'undo')\n        end)()"),
        AppAction::Redo => Some("lua (function()\n            local mode = vim.api.nvim_get_mode().mode\n            if mode:find(\"[iR]\") then\n                vim.cmd('stopinsert')\n            end\n            pcall(vim.cmd, 'redo')\n        end)()"),
        _ => None,
    }
}

} // verus!
