//! The words of the menu, in two languages.

use vstd::prelude::*;

use crate::text;

verus! {

/// The version of the program.
pub const VERSION: &'static str = "0.1.0";

/// A language.
#[derive(Debug, Clone, Copy, PartialEq, Eq, Structural)]
pub enum Lang {
    /// English.
    En,
    /// Chinese.
    Zh,
}

/// The words of the menu in a language.
pub struct L10n {
    pub lang: Lang,
}

// ---------------------------------------------------------------------------
// Models
// ---------------------------------------------------------------------------

/// The other language.
pub open spec fn other(lang: Lang) -> Lang {
    match lang {
        Lang::En => Lang::Zh,
        Lang::Zh => Lang::En,
    }
}

/// The language of a system language id: Chinese where the primary language, the
/// lower ten bits, is that.
pub open spec fn lang_of(language_id: u16) -> Lang {
    if language_id & 0x3FF == 0x04 {
        Lang::Zh
    } else {
        Lang::En
    }
}

/// The name of the language.
pub open spec fn lang_name_text(lang: Lang) -> Seq<char> {
    match lang {
        Lang::En => "English"@,
        Lang::Zh => "中文"@,
    }
}

/// The first line.
pub open spec fn banner_text(lang: Lang) -> Seq<char> {
    match lang {
        Lang::En => "tbg-lite "@ + VERSION@ + " — interactive menu (no arguments given)"@,
        Lang::Zh => "tbg-lite "@ + VERSION@ + " — 交互菜单 interactive menu（无参数启动）"@,
    }
}

/// The second line.
pub open spec fn tip_text(lang: Lang) -> Seq<char> {
    match lang {
        Lang::En => "tip: `tbg-lite --help` shows the CLI; no Ctrl+C needed — use [0] to exit"@,
        Lang::Zh => "提示：`tbg-lite --help` 查看 CLI 用法；无需 Ctrl+C——用 [0] 退出"@,
    }
}

/// How to change the language.
pub open spec fn lang_hint_text(lang: Lang) -> Seq<char> {
    match lang {
        Lang::En => "language: English — press L for 中文"@,
        Lang::Zh => "语言：中文——按 L 切换 English"@,
    }
}

/// The watcher runs.
pub open spec fn status_running_text(lang: Lang, label: Seq<char>) -> Seq<char> {
    match lang {
        Lang::En => "watch status : RUNNING — "@ + label,
        Lang::Zh => "watch 状态：运行中——"@ + label,
    }
}

/// The watcher does not run.
pub open spec fn status_not_running_text(lang: Lang) -> Seq<char> {
    match lang {
        Lang::En => "watch status : not running"@,
        Lang::Zh => "watch 状态：未运行"@,
    }
}

/// The first choice.
pub open spec fn item1_text(lang: Lang) -> Seq<char> {
    match lang {
        Lang::En => "  [1] start watch — ungroup  (default: disable grouping on the taskbar)"@,
        Lang::Zh => "  [1] 启动 watch——取消分组（默认：任务栏不合并按钮）"@,
    }
}

/// The second choice.
pub open spec fn item2_text(lang: Lang) -> Seq<char> {
    match lang {
        Lang::En => "  [2] start watch — group    (custom group name)"@,
        Lang::Zh => "  [2] 启动 watch——自定义分组（输入组名）"@,
    }
}

/// The third choice.
pub open spec fn item3_text(lang: Lang) -> Seq<char> {
    match lang {
        Lang::En => "  [3] stop watch             (graceful: unhook + stats; rewrites stay)"@,
        Lang::Zh => "  [3] 停止 watch（优雅停止：摘钩 + 统计；改写保留）"@,
    }
}

/// The fourth choice.
pub open spec fn item4_text(lang: Lang) -> Seq<char> {
    match lang {
        Lang::En => "  [4] restore                (undo all rewrites: line-1 suffixes + line-2 map)"@,
        Lang::Zh => "  [4] 还原（撤销全部改写：线路一后缀 + 线路二映射表）"@,
    }
}

/// The fifth choice.
pub open spec fn item5_text(lang: Lang) -> Seq<char> {
    match lang {
        Lang::En => "  [5] inspect                (list windows and their AUMID state)"@,
        Lang::Zh => "  [5] 检查（列出窗口及其 AUMID 状态）"@,
    }
}

/// The last choice.
pub open spec fn item0_text(lang: Lang) -> Seq<char> {
    match lang {
        Lang::En => "  [0] exit                   (stop watch if running, optionally restore, exit)"@,
        Lang::Zh => "  [0] 退出（若 watch 运行中则先停止，可选还原，然后退出）"@,
    }
}

/// The watcher runs already.
pub open spec fn watch_already_running_text(lang: Lang) -> Seq<char> {
    match lang {
        Lang::En => "menu: watch already running — stop it first with [3]"@,
        Lang::Zh => "menu：watch 已在运行——请先用 [3] 停止"@,
    }
}

/// The watcher was started on the suffix line.
pub open spec fn watch_started_ungroup_text(lang: Lang) -> Seq<char> {
    match lang {
        Lang::En => "menu: watch started (line 1, ungroup) — taskbar grouping disabled"@,
        Lang::Zh => "menu：watch 已启动（线路一，取消分组）——任务栏分组已禁用"@,
    }
}

/// The prompt for the name of a group.
pub open spec fn group_name_prompt_text(lang: Lang) -> Seq<char> {
    match lang {
        Lang::En => "group name (1-32 chars, [A-Za-z0-9._-], empty = cancel): "@,
        Lang::Zh => "组名（1-32 字符，[A-Za-z0-9._-]，空 = 取消）："@,
    }
}

/// No name was given.
pub open spec fn cancelled_empty_group_text(lang: Lang) -> Seq<char> {
    match lang {
        Lang::En => "menu: cancelled (empty group name)"@,
        Lang::Zh => "menu：已取消（组名为空）"@,
    }
}

/// The name is not valid.
pub open spec fn invalid_group_name_text(lang: Lang, e: Seq<char>) -> Seq<char> {
    match lang {
        Lang::En => "menu: invalid group name: "@ + e,
        Lang::Zh => "menu：组名无效："@ + e,
    }
}

/// The watcher was started on the group line.
pub open spec fn watch_started_group_text(lang: Lang, name: Seq<char>) -> Seq<char> {
    watch_started_quoted_text(lang, text::debug_text(name))
}

/// The watcher was started on the group line, for a name in quotes.
pub open spec fn watch_started_quoted_text(lang: Lang, quoted: Seq<char>) -> Seq<char> {
    match lang {
        Lang::En => "menu: watch started (line 2, group "@ + quoted + ")"@,
        Lang::Zh => "menu：watch 已启动（线路二，分组 "@ + quoted + "）"@,
    }
}

/// The watcher was stopped.
pub open spec fn watch_stopped_kept_text(lang: Lang) -> Seq<char> {
    match lang {
        Lang::En => "menu: watch stopped gracefully (stats above; rewrites kept)"@,
        Lang::Zh => "menu：watch 已优雅停止（统计见上；改写保留）"@,
    }
}

/// The watcher ended with an error.
pub open spec fn watch_stop_failed_text(lang: Lang, e: Seq<char>) -> Seq<char> {
    match lang {
        Lang::En => "menu: watch stop failed: "@ + e,
        Lang::Zh => "menu：watch 停止失败："@ + e,
    }
}

/// There is no watcher to stop.
pub open spec fn watch_not_running_text(lang: Lang) -> Seq<char> {
    match lang {
        Lang::En => "menu: watch is not running"@,
        Lang::Zh => "menu：watch 未运行"@,
    }
}

/// The watcher must be stopped before.
pub open spec fn stop_first_restore_text(lang: Lang) -> Seq<char> {
    match lang {
        Lang::En => "menu: stop the watch first ([3]) — restoring while watching would fight the rewriter"@,
        Lang::Zh => "menu：请先停止 watch（[3]）——边监听边还原会与改写逻辑互相打架"@,
    }
}

/// The prompt before windows are restored.
pub open spec fn restore_confirm_text(lang: Lang) -> Seq<char> {
    match lang {
        Lang::En => "restore all rewrites? [y/N] "@,
        Lang::Zh => "还原全部改写？[y/N] "@,
    }
}

/// The input has ended; the watcher is stopped.
pub open spec fn stdin_closed_watch_kept_text(lang: Lang) -> Seq<char> {
    match lang {
        Lang::En => "menu: stdin closed — exiting (watch stopped, rewrites kept)"@,
        Lang::Zh => "menu：stdin 已关闭——退出（watch 已停止，改写保留）"@,
    }
}

/// The input has ended.
pub open spec fn stdin_closed_kept_text(lang: Lang) -> Seq<char> {
    match lang {
        Lang::En => "menu: stdin closed — exiting (rewrites kept)"@,
        Lang::Zh => "menu：stdin 已关闭——退出（改写保留）"@,
    }
}

/// Nothing is restored.
pub open spec fn restore_cancelled_text(lang: Lang) -> Seq<char> {
    match lang {
        Lang::En => "menu: restore cancelled"@,
        Lang::Zh => "menu：已取消还原"@,
    }
}

/// Windows were restored.
pub open spec fn restore_finished_text(lang: Lang) -> Seq<char> {
    match lang {
        Lang::En => "menu: restore finished (see summary above)"@,
        Lang::Zh => "menu：还原完成（汇总见上）"@,
    }
}

/// Windows could not be restored.
pub open spec fn restore_failed_text(lang: Lang, e: Seq<char>) -> Seq<char> {
    match lang {
        Lang::En => "menu: restore failed: "@ + e,
        Lang::Zh => "menu：还原失败："@ + e,
    }
}

/// Windows could not be listed.
pub open spec fn inspect_failed_text(lang: Lang, e: Seq<char>) -> Seq<char> {
    match lang {
        Lang::En => "menu: inspect failed: "@ + e,
        Lang::Zh => "menu：inspect 失败："@ + e,
    }
}

/// The prompt before the end while the watcher runs.
pub open spec fn exit_confirm_text(lang: Lang) -> Seq<char> {
    match lang {
        Lang::En => "watch is running — restore rewrites before exit? [y/N] "@,
        Lang::Zh => "watch 运行中——退出前先还原改写？[y/N] "@,
    }
}

/// The watcher was stopped at the end.
pub open spec fn watch_stopped_stats_text(lang: Lang) -> Seq<char> {
    match lang {
        Lang::En => "menu: watch stopped gracefully (stats above)"@,
        Lang::Zh => "menu：watch 已优雅停止（统计见上）"@,
    }
}

/// The last line.
pub open spec fn exiting_bye_text(lang: Lang) -> Seq<char> {
    match lang {
        Lang::En => "menu: exiting — bye."@,
        Lang::Zh => "menu：退出——再见。"@,
    }
}

/// There is no such choice.
pub open spec fn unknown_option_text(lang: Lang, other: Seq<char>) -> Seq<char> {
    unknown_quoted_text(lang, text::debug_text(other))
}

/// There is no such choice as the one in quotes.
pub open spec fn unknown_quoted_text(lang: Lang, quoted: Seq<char>) -> Seq<char> {
    match lang {
        Lang::En => "menu: unknown option "@ + quoted + " (valid: 0-5, L)"@,
        Lang::Zh => "menu：未知选项 "@ + quoted + "（可用：0-5、L）"@,
    }
}

/// The watcher has ended by itself.
pub open spec fn watch_ended_own_text(lang: Lang) -> Seq<char> {
    match lang {
        Lang::En => "menu: watch ended on its own (see stats above)"@,
        Lang::Zh => "menu：watch 已自行结束（统计见上）"@,
    }
}

/// The watcher has failed.
pub open spec fn watch_failed_text(lang: Lang, e: Seq<char>) -> Seq<char> {
    match lang {
        Lang::En => "menu: watch failed: "@ + e,
        Lang::Zh => "menu：watch 失败："@ + e,
    }
}

/// The watcher has crashed.
pub open spec fn watch_panicked_text(lang: Lang) -> Seq<char> {
    match lang {
        Lang::En => "menu: watch thread panicked (see stderr)"@,
        Lang::Zh => "menu：watch 线程 panic（见 stderr）"@,
    }
}

/// The language was changed.
pub open spec fn lang_switched_text(lang: Lang) -> Seq<char> {
    match lang {
        Lang::En => "menu: language switched to "@ + lang_name_text(lang),
        Lang::Zh => "menu：语言已切换为"@ + lang_name_text(lang),
    }
}

// ---------------------------------------------------------------------------
// Laws
// ---------------------------------------------------------------------------

/// Changing the language twice changes nothing.
pub proof fn law_toggle_twice(lang: Lang)
    ensures
        other(other(lang)) == lang,
        other(lang) != lang,
{
}

/// The first line names the menu in English, whatever the language.
pub proof fn law_banner_names_the_menu(lang: Lang)
    ensures
        text::contains(banner_text(lang), "interactive menu"@),
{
    reveal_strlit("interactive menu");
    reveal_strlit("tbg-lite ");
    reveal_strlit("0.1.0");
    reveal_strlit(" — interactive menu (no arguments given)");
    reveal_strlit(" — 交互菜单 interactive menu（无参数启动）");
    let b = banner_text(lang);
    match lang {
        Lang::En => {
            assert(b.subrange(17, 33) =~= "interactive menu"@);
            assert(text::occurs_at(b, "interactive menu"@, 17));
        },
        Lang::Zh => {
            assert(b.subrange(22, 38) =~= "interactive menu"@);
            assert(text::occurs_at(b, "interactive menu"@, 22));
        },
    }
}

/// All ids of a primary language have one language, whatever the country.
pub proof fn law_country_is_irrelevant(a: u16, b: u16)
    requires
        a & 0x3FF == b & 0x3FF,
    ensures
        lang_of(a) == lang_of(b),
{
}

/// The words in English; `word` is what is told.
pub proof fn law_english(word: Seq<char>)
    ensures
        lang_name_text(Lang::En) == "English"@,
        banner_text(Lang::En) == "tbg-lite "@ + VERSION@ + " — interactive menu (no arguments given)"@,
        tip_text(Lang::En) == "tip: `tbg-lite --help` shows the CLI; no Ctrl+C needed — use [0] to exit"@,
        lang_hint_text(Lang::En) == "language: English — press L for 中文"@,
        status_running_text(Lang::En, word) == "watch status : RUNNING — "@ + word,
        status_not_running_text(Lang::En) == "watch status : not running"@,
        item1_text(Lang::En) == "  [1] start watch — ungroup  (default: disable grouping on the taskbar)"@,
        item2_text(Lang::En) == "  [2] start watch — group    (custom group name)"@,
        item3_text(Lang::En) == "  [3] stop watch             (graceful: unhook + stats; rewrites stay)"@,
        item4_text(Lang::En) == "  [4] restore                (undo all rewrites: line-1 suffixes + line-2 map)"@,
        item5_text(Lang::En) == "  [5] inspect                (list windows and their AUMID state)"@,
        item0_text(Lang::En) == "  [0] exit                   (stop watch if running, optionally restore, exit)"@,
        watch_already_running_text(Lang::En) == "menu: watch already running — stop it first with [3]"@,
        watch_started_ungroup_text(Lang::En) == "menu: watch started (line 1, ungroup) — taskbar grouping disabled"@,
        group_name_prompt_text(Lang::En) == "group name (1-32 chars, [A-Za-z0-9._-], empty = cancel): "@,
        cancelled_empty_group_text(Lang::En) == "menu: cancelled (empty group name)"@,
        invalid_group_name_text(Lang::En, word) == "menu: invalid group name: "@ + word,
        watch_started_quoted_text(Lang::En, word) == "menu: watch started (line 2, group "@ + word + ")"@,
        watch_stopped_kept_text(Lang::En) == "menu: watch stopped gracefully (stats above; rewrites kept)"@,
        watch_stop_failed_text(Lang::En, word) == "menu: watch stop failed: "@ + word,
        watch_not_running_text(Lang::En) == "menu: watch is not running"@,
        stop_first_restore_text(Lang::En) == "menu: stop the watch first ([3]) — restoring while watching would fight the rewriter"@,
        restore_confirm_text(Lang::En) == "restore all rewrites? [y/N] "@,
        stdin_closed_watch_kept_text(Lang::En) == "menu: stdin closed — exiting (watch stopped, rewrites kept)"@,
        stdin_closed_kept_text(Lang::En) == "menu: stdin closed — exiting (rewrites kept)"@,
        restore_cancelled_text(Lang::En) == "menu: restore cancelled"@,
        restore_finished_text(Lang::En) == "menu: restore finished (see summary above)"@,
        restore_failed_text(Lang::En, word) == "menu: restore failed: "@ + word,
        inspect_failed_text(Lang::En, word) == "menu: inspect failed: "@ + word,
        exit_confirm_text(Lang::En) == "watch is running — restore rewrites before exit? [y/N] "@,
        watch_stopped_stats_text(Lang::En) == "menu: watch stopped gracefully (stats above)"@,
        exiting_bye_text(Lang::En) == "menu: exiting — bye."@,
        unknown_quoted_text(Lang::En, word) == "menu: unknown option "@ + word + " (valid: 0-5, L)"@,
        watch_ended_own_text(Lang::En) == "menu: watch ended on its own (see stats above)"@,
        watch_failed_text(Lang::En, word) == "menu: watch failed: "@ + word,
        watch_panicked_text(Lang::En) == "menu: watch thread panicked (see stderr)"@,
        lang_switched_text(Lang::En) == "menu: language switched to "@ + "English"@,
{
}

/// The words in Chinese; `word` is what is told.
pub proof fn law_chinese(word: Seq<char>)
    ensures
        lang_name_text(Lang::Zh) == "中文"@,
        banner_text(Lang::Zh) == "tbg-lite "@ + VERSION@ + " — 交互菜单 interactive menu（无参数启动）"@,
        tip_text(Lang::Zh) == "提示：`tbg-lite --help` 查看 CLI 用法；无需 Ctrl+C——用 [0] 退出"@,
        lang_hint_text(Lang::Zh) == "语言：中文——按 L 切换 English"@,
        status_running_text(Lang::Zh, word) == "watch 状态：运行中——"@ + word,
        status_not_running_text(Lang::Zh) == "watch 状态：未运行"@,
        item1_text(Lang::Zh) == "  [1] 启动 watch——取消分组（默认：任务栏不合并按钮）"@,
        item2_text(Lang::Zh) == "  [2] 启动 watch——自定义分组（输入组名）"@,
        item3_text(Lang::Zh) == "  [3] 停止 watch（优雅停止：摘钩 + 统计；改写保留）"@,
        item4_text(Lang::Zh) == "  [4] 还原（撤销全部改写：线路一后缀 + 线路二映射表）"@,
        item5_text(Lang::Zh) == "  [5] 检查（列出窗口及其 AUMID 状态）"@,
        item0_text(Lang::Zh) == "  [0] 退出（若 watch 运行中则先停止，可选还原，然后退出）"@,
        watch_already_running_text(Lang::Zh) == "menu：watch 已在运行——请先用 [3] 停止"@,
        watch_started_ungroup_text(Lang::Zh) == "menu：watch 已启动（线路一，取消分组）——任务栏分组已禁用"@,
        group_name_prompt_text(Lang::Zh) == "组名（1-32 字符，[A-Za-z0-9._-]，空 = 取消）："@,
        cancelled_empty_group_text(Lang::Zh) == "menu：已取消（组名为空）"@,
        invalid_group_name_text(Lang::Zh, word) == "menu：组名无效："@ + word,
        watch_started_quoted_text(Lang::Zh, word) == "menu：watch 已启动（线路二，分组 "@ + word + "）"@,
        watch_stopped_kept_text(Lang::Zh) == "menu：watch 已优雅停止（统计见上；改写保留）"@,
        watch_stop_failed_text(Lang::Zh, word) == "menu：watch 停止失败："@ + word,
        watch_not_running_text(Lang::Zh) == "menu：watch 未运行"@,
        stop_first_restore_text(Lang::Zh) == "menu：请先停止 watch（[3]）——边监听边还原会与改写逻辑互相打架"@,
        restore_confirm_text(Lang::Zh) == "还原全部改写？[y/N] "@,
        stdin_closed_watch_kept_text(Lang::Zh) == "menu：stdin 已关闭——退出（watch 已停止，改写保留）"@,
        stdin_closed_kept_text(Lang::Zh) == "menu：stdin 已关闭——退出（改写保留）"@,
        restore_cancelled_text(Lang::Zh) == "menu：已取消还原"@,
        restore_finished_text(Lang::Zh) == "menu：还原完成（汇总见上）"@,
        restore_failed_text(Lang::Zh, word) == "menu：还原失败："@ + word,
        inspect_failed_text(Lang::Zh, word) == "menu：inspect 失败："@ + word,
        exit_confirm_text(Lang::Zh) == "watch 运行中——退出前先还原改写？[y/N] "@,
        watch_stopped_stats_text(Lang::Zh) == "menu：watch 已优雅停止（统计见上）"@,
        exiting_bye_text(Lang::Zh) == "menu：退出——再见。"@,
        unknown_quoted_text(Lang::Zh, word) == "menu：未知选项 "@ + word + "（可用：0-5、L）"@,
        watch_ended_own_text(Lang::Zh) == "menu：watch 已自行结束（统计见上）"@,
        watch_failed_text(Lang::Zh, word) == "menu：watch 失败："@ + word,
        watch_panicked_text(Lang::Zh) == "menu：watch 线程 panic（见 stderr）"@,
        lang_switched_text(Lang::Zh) == "menu：语言已切换为"@ + "中文"@,
{
}

/// What is told in quotes is told as it would stand in a program.
pub proof fn law_quoted_words(lang: Lang, word: Seq<char>)
    ensures
        watch_started_group_text(lang, word) == watch_started_quoted_text(
            lang,
            text::debug_text(word),
        ),
        unknown_option_text(lang, word) == unknown_quoted_text(lang, text::debug_text(word)),
{
}

/// The language is Chinese exactly where the primary language of the system, the lower ten bits
/// of its language id, is that; and changing the language leads to the other one.
pub proof fn law_languages(language_id: u16, lang: Lang)
    ensures
        lang_of(language_id) is Zh <==> language_id % 1024 == 4,
        other(lang) is Zh <==> lang is En,
{
    assert(language_id & 0x3FF == language_id % 1024) by (bit_vector);
}

/// The version that the first line names.
pub proof fn law_version()
    ensures
        VERSION@ == "0.1.0"@,
{
}

// ---------------------------------------------------------------------------
// Functions
// ---------------------------------------------------------------------------

impl Lang {
    /// The language of a system language id.
    pub fn detect(language_id: u16) -> (r: Lang)
        ensures
            r == lang_of(language_id),
    {
        if language_id & 0x3FF == 0x04 {
            Lang::Zh
        } else {
            Lang::En
        }
    }
}

impl L10n {
    /// The words in the language of a system language id.
    pub fn new(language_id: u16) -> (r: L10n)
        ensures
            r.lang == lang_of(language_id),
    {
        L10n { lang: Lang::detect(language_id) }
    }

    /// Changes the language.
    pub fn toggle(&mut self)
        ensures
            final(self).lang == other(old(self).lang),
    {
        self.lang = match self.lang {
            Lang::En => Lang::Zh,
            Lang::Zh => Lang::En,
        };
    }

    /// The name of the language.
    pub fn lang_name(&self) -> (r: &'static str)
        ensures
            r@ == lang_name_text(self.lang),
    {
        match self.lang {
            Lang::En => "English",
            Lang::Zh => "中文",
        }
    }

    /// The first line.
    pub fn banner(&self) -> (r: String)
        ensures
            r@ == banner_text(self.lang),
    {
        match self.lang {
            Lang::En => {
                let mut r: String = "tbg-lite ".to_owned();
                r.push_str(VERSION);
                r.push_str(" — interactive menu (no arguments given)");
                r
            },
            Lang::Zh => {
                let mut r: String = "tbg-lite ".to_owned();
                r.push_str(VERSION);
                r.push_str(" — 交互菜单 interactive menu（无参数启动）");
                r
            },
        }
    }

    /// The second line.
    pub fn tip(&self) -> (r: &'static str)
        ensures
            r@ == tip_text(self.lang),
    {
        match self.lang {
            Lang::En => "tip: `tbg-lite --help` shows the CLI; no Ctrl+C needed — use [0] to exit",
            Lang::Zh => "提示：`tbg-lite --help` 查看 CLI 用法；无需 Ctrl+C——用 [0] 退出",
        }
    }

    /// How to change the language.
    pub fn lang_hint(&self) -> (r: &'static str)
        ensures
            r@ == lang_hint_text(self.lang),
    {
        match self.lang {
            Lang::En => "language: English — press L for 中文",
            Lang::Zh => "语言：中文——按 L 切换 English",
        }
    }

    /// The watcher runs.
    pub fn status_running(&self, label: &str) -> (r: String)
        ensures
            r@ == status_running_text(self.lang, label@),
    {
        match self.lang {
            Lang::En => {
                let mut r: String = "watch status : RUNNING — ".to_owned();
                r.push_str(label);
                r
            },
            Lang::Zh => {
                let mut r: String = "watch 状态：运行中——".to_owned();
                r.push_str(label);
                r
            },
        }
    }

    /// The watcher does not run.
    pub fn status_not_running(&self) -> (r: &'static str)
        ensures
            r@ == status_not_running_text(self.lang),
    {
        match self.lang {
            Lang::En => "watch status : not running",
            Lang::Zh => "watch 状态：未运行",
        }
    }

    /// The first choice.
    pub fn item1(&self) -> (r: &'static str)
        ensures
            r@ == item1_text(self.lang),
    {
        match self.lang {
            Lang::En => "  [1] start watch — ungroup  (default: disable grouping on the taskbar)",
            Lang::Zh => "  [1] 启动 watch——取消分组（默认：任务栏不合并按钮）",
        }
    }

    /// The second choice.
    pub fn item2(&self) -> (r: &'static str)
        ensures
            r@ == item2_text(self.lang),
    {
        match self.lang {
            Lang::En => "  [2] start watch — group    (custom group name)",
            Lang::Zh => "  [2] 启动 watch——自定义分组（输入组名）",
        }
    }

    /// The third choice.
    pub fn item3(&self) -> (r: &'static str)
        ensures
            r@ == item3_text(self.lang),
    {
        match self.lang {
            Lang::En => "  [3] stop watch             (graceful: unhook + stats; rewrites stay)",
            Lang::Zh => "  [3] 停止 watch（优雅停止：摘钩 + 统计；改写保留）",
        }
    }

    /// The fourth choice.
    pub fn item4(&self) -> (r: &'static str)
        ensures
            r@ == item4_text(self.lang),
    {
        match self.lang {
            Lang::En => "  [4] restore                (undo all rewrites: line-1 suffixes + line-2 map)",
            Lang::Zh => "  [4] 还原（撤销全部改写：线路一后缀 + 线路二映射表）",
        }
    }

    /// The fifth choice.
    pub fn item5(&self) -> (r: &'static str)
        ensures
            r@ == item5_text(self.lang),
    {
        match self.lang {
            Lang::En => "  [5] inspect                (list windows and their AUMID state)",
            Lang::Zh => "  [5] 检查（列出窗口及其 AUMID 状态）",
        }
    }

    /// The last choice.
    pub fn item0(&self) -> (r: &'static str)
        ensures
            r@ == item0_text(self.lang),
    {
        match self.lang {
            Lang::En => "  [0] exit                   (stop watch if running, optionally restore, exit)",
            Lang::Zh => "  [0] 退出（若 watch 运行中则先停止，可选还原，然后退出）",
        }
    }

    /// The watcher runs already.
    pub fn watch_already_running(&self) -> (r: &'static str)
        ensures
            r@ == watch_already_running_text(self.lang),
    {
        match self.lang {
            Lang::En => "menu: watch already running — stop it first with [3]",
            Lang::Zh => "menu：watch 已在运行——请先用 [3] 停止",
        }
    }

    /// The watcher was started on the suffix line.
    pub fn watch_started_ungroup(&self) -> (r: &'static str)
        ensures
            r@ == watch_started_ungroup_text(self.lang),
    {
        match self.lang {
            Lang::En => "menu: watch started (line 1, ungroup) — taskbar grouping disabled",
            Lang::Zh => "menu：watch 已启动（线路一，取消分组）——任务栏分组已禁用",
        }
    }

    /// The prompt for the name of a group.
    pub fn group_name_prompt(&self) -> (r: &'static str)
        ensures
            r@ == group_name_prompt_text(self.lang),
    {
        match self.lang {
            Lang::En => "group name (1-32 chars, [A-Za-z0-9._-], empty = cancel): ",
            Lang::Zh => "组名（1-32 字符，[A-Za-z0-9._-]，空 = 取消）：",
        }
    }

    /// No name was given.
    pub fn cancelled_empty_group(&self) -> (r: &'static str)
        ensures
            r@ == cancelled_empty_group_text(self.lang),
    {
        match self.lang {
            Lang::En => "menu: cancelled (empty group name)",
            Lang::Zh => "menu：已取消（组名为空）",
        }
    }

    /// The name is not valid.
    pub fn invalid_group_name(&self, e: &str) -> (r: String)
        ensures
            r@ == invalid_group_name_text(self.lang, e@),
    {
        match self.lang {
            Lang::En => {
                let mut r: String = "menu: invalid group name: ".to_owned();
                r.push_str(e);
                r
            },
            Lang::Zh => {
                let mut r: String = "menu：组名无效：".to_owned();
                r.push_str(e);
                r
            },
        }
    }

    /// The watcher was started on the group line.
    pub fn watch_started_group(&self, name: &str) -> (r: String)
        ensures
            r@ == watch_started_group_text(self.lang, name@),
    {
        self.watch_started_quoted(text::debug_quoted(name).as_str())
    }

    /// The watcher was started on the group line, for a name in quotes.
    pub fn watch_started_quoted(&self, quoted: &str) -> (r: String)
        ensures
            r@ == watch_started_quoted_text(self.lang, quoted@),
    {
        match self.lang {
            Lang::En => {
                let mut r: String = "menu: watch started (line 2, group ".to_owned();
                r.push_str(quoted);
                r.push_str(")");
                r
            },
            Lang::Zh => {
                let mut r: String = "menu：watch 已启动（线路二，分组 ".to_owned();
                r.push_str(quoted);
                r.push_str("）");
                r
            },
        }
    }

    /// The watcher was stopped.
    pub fn watch_stopped_kept(&self) -> (r: &'static str)
        ensures
            r@ == watch_stopped_kept_text(self.lang),
    {
        match self.lang {
            Lang::En => "menu: watch stopped gracefully (stats above; rewrites kept)",
            Lang::Zh => "menu：watch 已优雅停止（统计见上；改写保留）",
        }
    }

    /// The watcher ended with an error.
    pub fn watch_stop_failed(&self, e: &str) -> (r: String)
        ensures
            r@ == watch_stop_failed_text(self.lang, e@),
    {
        match self.lang {
            Lang::En => {
                let mut r: String = "menu: watch stop failed: ".to_owned();
                r.push_str(e);
                r
            },
            Lang::Zh => {
                let mut r: String = "menu：watch 停止失败：".to_owned();
                r.push_str(e);
                r
            },
        }
    }

    /// There is no watcher to stop.
    pub fn watch_not_running(&self) -> (r: &'static str)
        ensures
            r@ == watch_not_running_text(self.lang),
    {
        match self.lang {
            Lang::En => "menu: watch is not running",
            Lang::Zh => "menu：watch 未运行",
        }
    }

    /// The watcher must be stopped before.
    pub fn stop_first_restore(&self) -> (r: &'static str)
        ensures
            r@ == stop_first_restore_text(self.lang),
    {
        match self.lang {
            Lang::En => "menu: stop the watch first ([3]) — restoring while watching would fight the rewriter",
            Lang::Zh => "menu：请先停止 watch（[3]）——边监听边还原会与改写逻辑互相打架",
        }
    }

    /// The prompt before windows are restored.
    pub fn restore_confirm(&self) -> (r: &'static str)
        ensures
            r@ == restore_confirm_text(self.lang),
    {
        match self.lang {
            Lang::En => "restore all rewrites? [y/N] ",
            Lang::Zh => "还原全部改写？[y/N] ",
        }
    }

    /// The input has ended; the watcher is stopped.
    pub fn stdin_closed_watch_kept(&self) -> (r: &'static str)
        ensures
            r@ == stdin_closed_watch_kept_text(self.lang),
    {
        match self.lang {
            Lang::En => "menu: stdin closed — exiting (watch stopped, rewrites kept)",
            Lang::Zh => "menu：stdin 已关闭——退出（watch 已停止，改写保留）",
        }
    }

    /// The input has ended.
    pub fn stdin_closed_kept(&self) -> (r: &'static str)
        ensures
            r@ == stdin_closed_kept_text(self.lang),
    {
        match self.lang {
            Lang::En => "menu: stdin closed — exiting (rewrites kept)",
            Lang::Zh => "menu：stdin 已关闭——退出（改写保留）",
        }
    }

    /// Nothing is restored.
    pub fn restore_cancelled(&self) -> (r: &'static str)
        ensures
            r@ == restore_cancelled_text(self.lang),
    {
        match self.lang {
            Lang::En => "menu: restore cancelled",
            Lang::Zh => "menu：已取消还原",
        }
    }

    /// Windows were restored.
    pub fn restore_finished(&self) -> (r: &'static str)
        ensures
            r@ == restore_finished_text(self.lang),
    {
        match self.lang {
            Lang::En => "menu: restore finished (see summary above)",
            Lang::Zh => "menu：还原完成（汇总见上）",
        }
    }

    /// Windows could not be restored.
    pub fn restore_failed(&self, e: &str) -> (r: String)
        ensures
            r@ == restore_failed_text(self.lang, e@),
    {
        match self.lang {
            Lang::En => {
                let mut r: String = "menu: restore failed: ".to_owned();
                r.push_str(e);
                r
            },
            Lang::Zh => {
                let mut r: String = "menu：还原失败：".to_owned();
                r.push_str(e);
                r
            },
        }
    }

    /// Windows could not be listed.
    pub fn inspect_failed(&self, e: &str) -> (r: String)
        ensures
            r@ == inspect_failed_text(self.lang, e@),
    {
        match self.lang {
            Lang::En => {
                let mut r: String = "menu: inspect failed: ".to_owned();
                r.push_str(e);
                r
            },
            Lang::Zh => {
                let mut r: String = "menu：inspect 失败：".to_owned();
                r.push_str(e);
                r
            },
        }
    }

    /// The prompt before the end while the watcher runs.
    pub fn exit_confirm(&self) -> (r: &'static str)
        ensures
            r@ == exit_confirm_text(self.lang),
    {
        match self.lang {
            Lang::En => "watch is running — restore rewrites before exit? [y/N] ",
            Lang::Zh => "watch 运行中——退出前先还原改写？[y/N] ",
        }
    }

    /// The watcher was stopped at the end.
    pub fn watch_stopped_stats(&self) -> (r: &'static str)
        ensures
            r@ == watch_stopped_stats_text(self.lang),
    {
        match self.lang {
            Lang::En => "menu: watch stopped gracefully (stats above)",
            Lang::Zh => "menu：watch 已优雅停止（统计见上）",
        }
    }

    /// The last line.
    pub fn exiting_bye(&self) -> (r: &'static str)
        ensures
            r@ == exiting_bye_text(self.lang),
    {
        match self.lang {
            Lang::En => "menu: exiting — bye.",
            Lang::Zh => "menu：退出——再见。",
        }
    }

    /// There is no such choice.
    pub fn unknown_option(&self, other: &str) -> (r: String)
        ensures
            r@ == unknown_option_text(self.lang, other@),
    {
        self.unknown_quoted(text::debug_quoted(other).as_str())
    }

    /// There is no such choice as the one in quotes.
    pub fn unknown_quoted(&self, quoted: &str) -> (r: String)
        ensures
            r@ == unknown_quoted_text(self.lang, quoted@),
    {
        match self.lang {
            Lang::En => {
                let mut r: String = "menu: unknown option ".to_owned();
                r.push_str(quoted);
                r.push_str(" (valid: 0-5, L)");
                r
            },
            Lang::Zh => {
                let mut r: String = "menu：未知选项 ".to_owned();
                r.push_str(quoted);
                r.push_str("（可用：0-5、L）");
                r
            },
        }
    }

    /// The watcher has ended by itself.
    pub fn watch_ended_own(&self) -> (r: &'static str)
        ensures
            r@ == watch_ended_own_text(self.lang),
    {
        match self.lang {
            Lang::En => "menu: watch ended on its own (see stats above)",
            Lang::Zh => "menu：watch 已自行结束（统计见上）",
        }
    }

    /// The watcher has failed.
    pub fn watch_failed(&self, e: &str) -> (r: String)
        ensures
            r@ == watch_failed_text(self.lang, e@),
    {
        match self.lang {
            Lang::En => {
                let mut r: String = "menu: watch failed: ".to_owned();
                r.push_str(e);
                r
            },
            Lang::Zh => {
                let mut r: String = "menu：watch 失败：".to_owned();
                r.push_str(e);
                r
            },
        }
    }

    /// The watcher has crashed.
    pub fn watch_panicked(&self) -> (r: &'static str)
        ensures
            r@ == watch_panicked_text(self.lang),
    {
        match self.lang {
            Lang::En => "menu: watch thread panicked (see stderr)",
            Lang::Zh => "menu：watch 线程 panic（见 stderr）",
        }
    }

    /// The language was changed.
    pub fn lang_switched(&self) -> (r: String)
        ensures
            r@ == lang_switched_text(self.lang),
    {
        match self.lang {
            Lang::En => {
                let mut r: String = "menu: language switched to ".to_owned();
                r.push_str(self.lang_name());
                r
            },
            Lang::Zh => {
                let mut r: String = "menu：语言已切换为".to_owned();
                r.push_str(self.lang_name());
                r
            },
        }
    }
}

} // verus!
