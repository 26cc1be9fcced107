//! Application configuration and clipboard history: the pure update rules.
//!
//! Loading and saving these values is the caller's business; the functions
//! here compute configuration file paths from a given configuration
//! directory and maintain the bounded recent-path and history lists.

use vstd::prelude::*;

use crate::resolve::join_path;
use crate::text::{strs_view, chars_to_string, push_all, str_to_chars};

verus! {

/// Persisted application settings.
#[derive(Debug, Clone)]
pub struct AppConfig {
    pub theme: String,
    pub recent_paths: Vec<String>,
    pub custom_ignore_patterns: Vec<String>,
    pub max_file_size_mb: u64,
    pub output_format: String,
    pub git_only_mode: bool,
    pub keep_comments: bool,
    pub show_token_count: bool,
}

impl Default for AppConfig {
    /// The settings a fresh installation starts with.
    fn default() -> (r: AppConfig)
        ensures
            r.theme@ == "dark"@,
            r.recent_paths@.len() == 0,
            r.custom_ignore_patterns@.len() == 0,
            r.max_file_size_mb == 10,
            r.output_format@ == "markdown"@,
            !r.git_only_mode,
            r.keep_comments,
            r.show_token_count,
    {
        AppConfig {
            theme: String::from_str("dark"),
            recent_paths: Vec::new(),
            custom_ignore_patterns: Vec::new(),
            max_file_size_mb: 10,
            output_format: String::from_str("markdown"),
            git_only_mode: false,
            keep_comments: true,
            show_token_count: true,
        }
    }
}

/// One remembered clipboard payload.
#[derive(Debug, Clone)]
pub struct ClipboardHistoryItem {
    pub content: String,
    pub timestamp: u64,
    pub file_count: usize,
    pub format: String,
}

/// The mathematical content of a `ClipboardHistoryItem`.
pub ghost struct ClipModel {
    pub content: Seq<char>,
    pub timestamp: int,
    pub file_count: int,
    pub format: Seq<char>,
}

impl View for ClipboardHistoryItem {
    type V = ClipModel;

    open spec fn view(&self) -> ClipModel {
        ClipModel {
            content: self.content@,
            timestamp: self.timestamp as int,
            file_count: self.file_count as int,
            format: self.format@,
        }
    }
}

pub open spec fn clips_view(s: Seq<ClipboardHistoryItem>) -> Seq<ClipModel> {
    Seq::new(s.len(), |i: int| s[i]@)
}

/// A bounded list of remembered clipboard payloads, newest first.
#[derive(Debug, Clone)]
pub struct ClipboardHistory {
    pub items: Vec<ClipboardHistoryItem>,
    pub max_items: usize,
}

impl Default for ClipboardHistory {
    /// An empty history that remembers at most 10 items.
    fn default() -> (r: ClipboardHistory)
        ensures
            r.items@.len() == 0,
            r.max_items == 10,
    {
        ClipboardHistory { items: Vec::new(), max_items: 10 }
    }
}

// ---------------------------------------------------------------------------
// Configuration file paths
// ---------------------------------------------------------------------------

/// Where the settings file lives under the configuration directory.
pub fn get_config_path(config_dir: &str) -> (r: String)
    ensures
        r@ == join_path(config_dir@, "config.json"@),
{
    let base = str_to_chars(config_dir);
    let name = str_to_chars("config.json");
    let joined = crate::resolve::join_path_chars(&base, &name);
    chars_to_string(&joined)
}

/// Where the clipboard history file lives under the configuration
/// directory.
pub fn get_clipboard_history_path(config_dir: &str) -> (r: String)
    ensures
        r@ == join_path(config_dir@, "clipboard_history.json"@),
{
    let base = str_to_chars(config_dir);
    let name = str_to_chars("clipboard_history.json");
    let joined = crate::resolve::join_path_chars(&base, &name);
    chars_to_string(&joined)
}

/// Characters a workspace path loses when it becomes a file name.
pub open spec fn is_unsafe_path_char(c: char) -> bool {
    c == '/' || c == '\\' || c == ':' || c == '*' || c == '?' || c == '"' || c == '<' || c == '>'
        || c == '|'
}

/// The path with every file-name-hostile character replaced by an
/// underscore.
pub open spec fn sanitized(s: Seq<char>) -> Seq<char> {
    Seq::new(s.len(), |i: int| if is_unsafe_path_char(s[i]) {
        '_'
    } else {
        s[i]
    })
}

/// The per-workspace state file name: `workspace_<sanitized path>.json`
/// under the configuration directory.
pub fn get_workspace_path(config_dir: &str, workspace_path: &str) -> (r: String)
    ensures
        r@ == join_path(
            config_dir@,
            "workspace_"@ + sanitized(workspace_path@) + ".json"@,
        ),
{
    let wp = str_to_chars(workspace_path);
    let mut name = str_to_chars("workspace_");
    let ghost stem = "workspace_"@;
    let mut i: usize = 0;
    while i < wp.len()
        invariant
            i <= wp.len(),
            wp@ == workspace_path@,
            name@ =~= stem + sanitized(wp@).take(i as int),
        decreases wp.len() - i,
    {
        let c = wp[i];
        let is_bad = c == '/' || c == '\\' || c == ':' || c == '*' || c == '?' || c == '"' || c
            == '<' || c == '>' || c == '|';
        name.push(if is_bad {
            '_'
        } else {
            c
        });
        proof {
            assert(name@ =~= stem + sanitized(wp@).take(i as int + 1));
        }
        i += 1;
    }
    let suffix = str_to_chars(".json");
    push_all(&mut name, &suffix);
    proof {
        assert(sanitized(wp@).take(wp@.len() as int) =~= sanitized(wp@));
        assert(name@ =~= stem + sanitized(workspace_path@) + ".json"@);
    }
    let base = str_to_chars(config_dir);
    let joined = crate::resolve::join_path_chars(&base, &name);
    chars_to_string(&joined)
}

// ---------------------------------------------------------------------------
// Recent paths
// ---------------------------------------------------------------------------

/// The old list with every copy of `p` removed.
pub open spec fn without_path(old_list: Seq<Seq<char>>, p: Seq<char>, k: int) -> Seq<Seq<char>>
    decreases old_list.len() - k,
{
    if k < 0 || k >= old_list.len() {
        Seq::empty()
    } else {
        (if old_list[k] == p {
            Seq::<Seq<char>>::empty()
        } else {
            seq![old_list[k]]
        }) + without_path(old_list, p, k + 1)
    }
}

/// What the recent-path list holds after `p` is used: `p` first, then the
/// old entries other than `p`, at most 10 in all.
pub open spec fn recent_after(old_list: Seq<Seq<char>>, p: Seq<char>) -> Seq<Seq<char>> {
    let g = seq![p] + without_path(old_list, p, 0);
    if g.len() > 10 {
        g.take(10)
    } else {
        g
    }
}

/// Record that `path` was just used: move it to the front of the config's
/// recent paths, dropping any earlier copy, and keep at most 10 entries.
/// Nothing else in the config changes.
pub fn add_recent_path(config: &mut AppConfig, path: String)
    ensures
        strs_view(final(config).recent_paths@) == recent_after(
            strs_view(old(config).recent_paths@),
            path@,
        ),
        final(config).theme == old(config).theme,
        final(config).custom_ignore_patterns == old(config).custom_ignore_patterns,
        final(config).max_file_size_mb == old(config).max_file_size_mb,
        final(config).output_format == old(config).output_format,
        final(config).git_only_mode == old(config).git_only_mode,
        final(config).keep_comments == old(config).keep_comments,
        final(config).show_token_count == old(config).show_token_count,
{
    let ghost old_view = strs_view(config.recent_paths@);
    let mut fresh: Vec<String> = Vec::new();
    let ghost p = path@;
    fresh.push(path);
    proof {
        assert(strs_view(fresh@) =~= seq![p]);
    }
    let mut i: usize = 0;
    while i < config.recent_paths.len()
        invariant
            i <= config.recent_paths.len(),
            old_view == strs_view(config.recent_paths@),
            config.recent_paths@.len() == old_view.len(),
            fresh@.len() >= 1,
            fresh@[0]@ == p,
            strs_view(fresh@) + without_path(old_view, p, i as int) =~= seq![p] + without_path(
                old_view,
                p,
                0,
            ),
        decreases config.recent_paths.len() - i,
    {
        let ghost pre = strs_view(fresh@);
        let keep_it = !(config.recent_paths[i] == fresh[0]);
        assert(fresh@[0]@ == p);
        if keep_it {
            let s = config.recent_paths[i].clone();
            assert(s@ == old_view[i as int]);
            fresh.push(s);
            proof {
                assert(strs_view(fresh@) =~= pre.push(old_view[i as int]));
            }
        }
        proof {
            assert(without_path(old_view, p, i as int) =~= (if old_view[i as int] == p {
                Seq::<Seq<char>>::empty()
            } else {
                seq![old_view[i as int]]
            }) + without_path(old_view, p, i as int + 1));
            if keep_it {
                assert(strs_view(fresh@) =~= pre + seq![old_view[i as int]]);
            }
        }
        i += 1;
    }
    proof {
        assert(without_path(old_view, p, i as int).len() == 0);
        assert(strs_view(fresh@) =~= seq![p] + without_path(old_view, p, 0));
    }
    let ghost g = seq![p] + without_path(old_view, p, 0);
    if fresh.len() > 10 {
        fresh.truncate(10);
        proof {
            assert(strs_view(fresh@) =~= g.take(10));
        }
    }
    config.recent_paths = fresh;
}

// ---------------------------------------------------------------------------
// Clipboard history
// ---------------------------------------------------------------------------

/// Remember a new payload: put it in front and pop the oldest entries
/// until the bound holds again.  The caller supplies the timestamp.
pub fn add_to_clipboard_history(
    history: &mut ClipboardHistory,
    content: String,
    timestamp: u64,
    file_count: usize,
    format: String,
)
    ensures
        final(history).max_items == old(history).max_items,
        clips_view(final(history).items@) == (seq![
            ClipModel {
                content: content@,
                timestamp: timestamp as int,
                file_count: file_count as int,
                format: format@,
            },
        ] + clips_view(old(history).items@)).take(
            vstd::math::min(
                old(history).items@.len() as int + 1,
                old(history).max_items as int,
            ),
        ),
{
    let ghost old_clips = clips_view(history.items@);
    let item = ClipboardHistoryItem { content, timestamp, file_count, format };
    let ghost m = item@;
    history.items.insert(0, item);
    proof {
        assert(clips_view(history.items@) =~= seq![m] + old_clips);
    }
    let ghost v0 = seq![m] + old_clips;
    while history.items.len() > history.max_items
        invariant
            old_clips == clips_view(old(history).items@),
            v0 == seq![m] + old_clips,
            clips_view(history.items@) =~= v0.take(history.items@.len() as int),
            history.items@.len() <= v0.len(),
            history.items@.len() >= vstd::math::min(
                v0.len() as int,
                old(history).max_items as int,
            ),
            history.max_items == old(history).max_items,
        decreases history.items.len(),
    {
        history.items.pop();
        proof {
            assert(clips_view(history.items@) =~= v0.take(history.items@.len() as int));
        }
    }
    proof {
        if v0.len() > old(history).max_items as int {
            assert(history.items@.len() == old(history).max_items);
            assert(clips_view(history.items@) =~= v0.take(
                vstd::math::min(old_clips.len() as int + 1, old(history).max_items as int),
            ));
        } else {
            assert(history.items@.len() == v0.len());
            assert(clips_view(history.items@) =~= v0);
        }
    }
}

/// Forget everything: the history becomes the fresh default.
pub fn clear_clipboard_history(history: &mut ClipboardHistory)
    ensures
        final(history).items@.len() == 0,
        final(history).max_items == 10,
{
    *history = ClipboardHistory::default();
}

} // verus!
