//! Interface languages: the translation tables and how a request's language
//! is chosen.
//!
//! Resolution order: the `aardbin_lang` cookie, then the first recognised
//! `Accept-Language` entry, then English. A key missing from a table falls
//! back to English, and a key missing everywhere is shown as itself.

use crate::text::{
    chars_of, cookie_value_for, find_char_from, find_cookie_span, index_of_from, lemma_index_of_from,
    lower_chars, lower_seq, owned, starts_with_chars, str_eq, sub_chars, trim_chars, trim_seq,
};
use vstd::prelude::*;

verus! {

/// The supported languages.
#[derive(Debug, Clone, Copy, PartialEq, Eq, Hash, Structural)]
pub enum Lang {
    En,
    Zh,
}

/// The language code.
pub open spec fn lang_code(lang: Lang) -> Seq<char> {
    match lang {
        Lang::En => "en"@,
        Lang::Zh => "zh"@,
    }
}

/// The value of the HTML `lang` attribute.
pub open spec fn lang_html_attr(lang: Lang) -> Seq<char> {
    match lang {
        Lang::En => "en"@,
        Lang::Zh => "zh-CN"@,
    }
}

impl Lang {
    pub fn as_str(&self) -> (r: &'static str)
        ensures
            r@ == lang_code(*self),
    {
        match self {
            Lang::En => "en",
            Lang::Zh => "zh",
        }
    }

    pub fn html_attr(&self) -> (r: &'static str)
        ensures
            r@ == lang_html_attr(*self),
    {
        match self {
            Lang::En => "en",
            Lang::Zh => "zh-CN",
        }
    }
}

// ---------------------------------------------------------------------------
// Translation tables
// ---------------------------------------------------------------------------

/// The English table, as (key, text) pairs.
pub open spec fn en_table() -> Seq<(Seq<char>, Seq<char>)> {
    seq![
        ("nav.new"@, "+ New"@),
        ("nav.logout"@, "Logout"@),
        ("login.title"@, "aardbin · Login"@),
        ("login.heading"@, "aardbin"@),
        ("login.tagline"@, "Your private bin."@),
        ("login.access_key_label"@, "Access Key"@),
        ("login.access_key_placeholder"@, "Access Key"@),
        ("login.button"@, "Login"@),
        ("login.error"@, "Invalid access key"@),
        ("records.empty"@, "Nothing here yet. Click "@),
        ("records.empty_new"@, "+ New"@),
        ("records.empty_tail"@, " to drop something."@),
        ("records.undecryptable"@, "⚠ Unable to decrypt"@),
        ("records.untitled"@, "Untitled"@),
        ("records.copy"@, "Copy"@),
        ("records.edit"@, "Edit"@),
        ("records.delete"@, "Delete"@),
        ("records.delete_confirm"@, "Delete this record?"@),
        ("records.prev"@, "← Prev"@),
        ("records.next"@, "Next →"@),
        ("records.page_info"@, "Page {page} / {total_pages} · {total} records"@),
        ("form.title_label"@, "Title"@),
        ("form.title_placeholder"@, "Optional title"@),
        ("form.content_label"@, "Content"@),
        ("form.content_placeholder"@, "Paste text, code, config..."@),
        ("form.attachments"@, "Attachments"@),
        ("form.max_each"@, "max {size} each"@),
        ("form.dropzone"@, "Drop files here or click to select"@),
        ("form.cancel"@, "Cancel"@),
        ("form.save"@, "Save"@),
        ("form.new_title"@, "New"@),
        ("form.edit_title"@, "Edit"@),
        ("att.download"@, "Download"@),
        ("att.delete_confirm"@, "Delete this attachment?"@),
        ("att.delete_title"@, "Delete attachment"@),
        ("js.copied"@, "Copied"@),
        ("js.copy_failed"@, "Copy failed"@),
        ("js.just_now"@, "just now"@),
        ("js.minute_ago"@, "1 minute ago"@),
        ("js.minutes_ago"@, "{n} minutes ago"@),
        ("js.hour_ago"@, "1 hour ago"@),
        ("js.hours_ago"@, "{n} hours ago"@),
        ("js.yesterday"@, "yesterday"@),
        ("js.exceeds_max"@, "exceeds max"@),
        ("js.skipped"@, "skipped"@),
        ("rate.too_many"@, "Too many attempts. Try again in {minutes} minute{plural}."@),
    ]
}

/// The Chinese table, as (key, text) pairs.
pub open spec fn zh_table() -> Seq<(Seq<char>, Seq<char>)> {
    seq![
        ("nav.new"@, "+ 新建"@),
        ("nav.logout"@, "退出"@),
        ("login.title"@, "aardbin · 登录"@),
        ("login.heading"@, "aardbin"@),
        ("login.tagline"@, "你的私人记事本。"@),
        ("login.access_key_label"@, "访问密钥"@),
        ("login.access_key_placeholder"@, "访问密钥"@),
        ("login.button"@, "登录"@),
        ("login.error"@, "访问密钥无效"@),
        ("records.empty"@, "暂无内容。点击"@),
        ("records.empty_new"@, "+ 新建"@),
        ("records.empty_tail"@, "添加记录。"@),
        ("records.undecryptable"@, "⚠ 无法解密"@),
        ("records.untitled"@, "无标题"@),
        ("records.copy"@, "复制"@),
        ("records.edit"@, "编辑"@),
        ("records.delete"@, "删除"@),
        ("records.delete_confirm"@, "确定删除此记录？"@),
        ("records.prev"@, "← 上页"@),
        ("records.next"@, "下页 →"@),
        ("records.page_info"@, "第 {page} / {total_pages} 页 · {total} 条记录"@),
        ("form.title_label"@, "标题"@),
        ("form.title_placeholder"@, "可选标题"@),
        ("form.content_label"@, "正文"@),
        ("form.content_placeholder"@, "粘贴文本、代码、配置…"@),
        ("form.attachments"@, "附件"@),
        ("form.max_each"@, "每个最大 {size}"@),
        ("form.dropzone"@, "拖放文件到此处或点击选择"@),
        ("form.cancel"@, "取消"@),
        ("form.save"@, "保存"@),
        ("form.new_title"@, "新建"@),
        ("form.edit_title"@, "编辑"@),
        ("att.download"@, "下载"@),
        ("att.delete_confirm"@, "确定删除此附件？"@),
        ("att.delete_title"@, "删除附件"@),
        ("js.copied"@, "已复制"@),
        ("js.copy_failed"@, "复制失败"@),
        ("js.just_now"@, "刚刚"@),
        ("js.minute_ago"@, "1 分钟前"@),
        ("js.minutes_ago"@, "{n} 分钟前"@),
        ("js.hour_ago"@, "1 小时前"@),
        ("js.hours_ago"@, "{n} 小时前"@),
        ("js.yesterday"@, "昨天"@),
        ("js.exceeds_max"@, "超过最大"@),
        ("js.skipped"@, "已跳过"@),
        ("rate.too_many"@, "尝试次数过多，请在 {minutes} 分钟后重试。"@),
    ]
}

/// Every translation key.
pub open spec fn known_keys() -> Seq<Seq<char>> {
    seq![
        "nav.new"@,
        "nav.logout"@,
        "login.title"@,
        "login.heading"@,
        "login.tagline"@,
        "login.access_key_label"@,
        "login.access_key_placeholder"@,
        "login.button"@,
        "login.error"@,
        "records.empty"@,
        "records.empty_new"@,
        "records.empty_tail"@,
        "records.undecryptable"@,
        "records.untitled"@,
        "records.copy"@,
        "records.edit"@,
        "records.delete"@,
        "records.delete_confirm"@,
        "records.prev"@,
        "records.next"@,
        "records.page_info"@,
        "form.title_label"@,
        "form.title_placeholder"@,
        "form.content_label"@,
        "form.content_placeholder"@,
        "form.attachments"@,
        "form.max_each"@,
        "form.dropzone"@,
        "form.cancel"@,
        "form.save"@,
        "form.new_title"@,
        "form.edit_title"@,
        "att.download"@,
        "att.delete_confirm"@,
        "att.delete_title"@,
        "js.copied"@,
        "js.copy_failed"@,
        "js.just_now"@,
        "js.minute_ago"@,
        "js.minutes_ago"@,
        "js.hour_ago"@,
        "js.hours_ago"@,
        "js.yesterday"@,
        "js.exceeds_max"@,
        "js.skipped"@,
        "rate.too_many"@,
    ]
}

pub open spec fn table_of(lang: Lang) -> Seq<(Seq<char>, Seq<char>)> {
    match lang {
        Lang::En => en_table(),
        Lang::Zh => zh_table(),
    }
}

/// The text of the first pair with `key`, if any.
pub open spec fn lookup_seq(table: Seq<(Seq<char>, Seq<char>)>, key: Seq<char>) -> Option<
    Seq<char>,
>
    decreases table.len(),
{
    if table.len() == 0 {
        None
    } else if table[0].0 == key {
        Some(table[0].1)
    } else {
        lookup_seq(table.drop_first(), key)
    }
}

/// The keys of a table, in order.
pub open spec fn table_keys(table: Seq<(Seq<char>, Seq<char>)>) -> Seq<Seq<char>> {
    table.map_values(|p: (Seq<char>, Seq<char>)| p.0)
}

/// The translation of `key` for `lang`: its own table, else English, else
/// the key itself.
pub open spec fn translate(lang: Lang, key: Seq<char>) -> Seq<char> {
    match lookup_seq(table_of(lang), key) {
        Some(v) => v,
        None => match lookup_seq(en_table(), key) {
            Some(v) => v,
            None => key,
        },
    }
}

pub open spec fn entries_view(e: Seq<(&str, &str)>) -> Seq<(Seq<char>, Seq<char>)> {
    e.map_values(|p: (&str, &str)| (p.0@, p.1@))
}

fn en_entries() -> (r: Vec<(&'static str, &'static str)>)
    ensures
        entries_view(r@) == en_table(),
{
    let v = vec![
        ("nav.new", "+ New"),
        ("nav.logout", "Logout"),
        ("login.title", "aardbin · Login"),
        ("login.heading", "aardbin"),
        ("login.tagline", "Your private bin."),
        ("login.access_key_label", "Access Key"),
        ("login.access_key_placeholder", "Access Key"),
        ("login.button", "Login"),
        ("login.error", "Invalid access key"),
        ("records.empty", "Nothing here yet. Click "),
        ("records.empty_new", "+ New"),
        ("records.empty_tail", " to drop something."),
        ("records.undecryptable", "⚠ Unable to decrypt"),
        ("records.untitled", "Untitled"),
        ("records.copy", "Copy"),
        ("records.edit", "Edit"),
        ("records.delete", "Delete"),
        ("records.delete_confirm", "Delete this record?"),
        ("records.prev", "← Prev"),
        ("records.next", "Next →"),
        ("records.page_info", "Page {page} / {total_pages} · {total} records"),
        ("form.title_label", "Title"),
        ("form.title_placeholder", "Optional title"),
        ("form.content_label", "Content"),
        ("form.content_placeholder", "Paste text, code, config..."),
        ("form.attachments", "Attachments"),
        ("form.max_each", "max {size} each"),
        ("form.dropzone", "Drop files here or click to select"),
        ("form.cancel", "Cancel"),
        ("form.save", "Save"),
        ("form.new_title", "New"),
        ("form.edit_title", "Edit"),
        ("att.download", "Download"),
        ("att.delete_confirm", "Delete this attachment?"),
        ("att.delete_title", "Delete attachment"),
        ("js.copied", "Copied"),
        ("js.copy_failed", "Copy failed"),
        ("js.just_now", "just now"),
        ("js.minute_ago", "1 minute ago"),
        ("js.minutes_ago", "{n} minutes ago"),
        ("js.hour_ago", "1 hour ago"),
        ("js.hours_ago", "{n} hours ago"),
        ("js.yesterday", "yesterday"),
        ("js.exceeds_max", "exceeds max"),
        ("js.skipped", "skipped"),
        ("rate.too_many", "Too many attempts. Try again in {minutes} minute{plural}."),
    ];
    assert(entries_view(v@) =~= en_table());
    v
}

fn zh_entries() -> (r: Vec<(&'static str, &'static str)>)
    ensures
        entries_view(r@) == zh_table(),
{
    let v = vec![
        ("nav.new", "+ 新建"),
        ("nav.logout", "退出"),
        ("login.title", "aardbin · 登录"),
        ("login.heading", "aardbin"),
        ("login.tagline", "你的私人记事本。"),
        ("login.access_key_label", "访问密钥"),
        ("login.access_key_placeholder", "访问密钥"),
        ("login.button", "登录"),
        ("login.error", "访问密钥无效"),
        ("records.empty", "暂无内容。点击"),
        ("records.empty_new", "+ 新建"),
        ("records.empty_tail", "添加记录。"),
        ("records.undecryptable", "⚠ 无法解密"),
        ("records.untitled", "无标题"),
        ("records.copy", "复制"),
        ("records.edit", "编辑"),
        ("records.delete", "删除"),
        ("records.delete_confirm", "确定删除此记录？"),
        ("records.prev", "← 上页"),
        ("records.next", "下页 →"),
        ("records.page_info", "第 {page} / {total_pages} 页 · {total} 条记录"),
        ("form.title_label", "标题"),
        ("form.title_placeholder", "可选标题"),
        ("form.content_label", "正文"),
        ("form.content_placeholder", "粘贴文本、代码、配置…"),
        ("form.attachments", "附件"),
        ("form.max_each", "每个最大 {size}"),
        ("form.dropzone", "拖放文件到此处或点击选择"),
        ("form.cancel", "取消"),
        ("form.save", "保存"),
        ("form.new_title", "新建"),
        ("form.edit_title", "编辑"),
        ("att.download", "下载"),
        ("att.delete_confirm", "确定删除此附件？"),
        ("att.delete_title", "删除附件"),
        ("js.copied", "已复制"),
        ("js.copy_failed", "复制失败"),
        ("js.just_now", "刚刚"),
        ("js.minute_ago", "1 分钟前"),
        ("js.minutes_ago", "{n} 分钟前"),
        ("js.hour_ago", "1 小时前"),
        ("js.hours_ago", "{n} 小时前"),
        ("js.yesterday", "昨天"),
        ("js.exceeds_max", "超过最大"),
        ("js.skipped", "已跳过"),
        ("rate.too_many", "尝试次数过多，请在 {minutes} 分钟后重试。"),
    ];
    assert(entries_view(v@) =~= zh_table());
    v
}

fn lookup_in(entries: &Vec<(&'static str, &'static str)>, key: &str) -> (r: Option<&'static str>)
    ensures
        crate::text::opt_view(r) == lookup_seq(entries_view(entries@), key@),
{
    let ghost all = entries_view(entries@);
    let mut i: usize = 0;
    assert(all.skip(0) =~= all);
    while i < entries.len()
        invariant
            i <= entries.len(),
            all == entries_view(entries@),
            lookup_seq(all, key@) == lookup_seq(all.skip(i as int), key@),
        decreases entries.len() - i,
    {
        let (k, v) = entries[i];
        assert(all.skip(i as int)[0] == (k@, v@));
        if str_eq(k, key) {
            return Some(v);
        }
        assert(all.skip(i as int).drop_first() =~= all.skip(i + 1));
        i += 1;
    }
    None
}

/// The text for `key` in the table of `lang` itself, with no fallback.
pub fn lookup(lang: Lang, key: &str) -> (r: Option<&'static str>)
    ensures
        crate::text::opt_view(r) == lookup_seq(table_of(lang), key@),
{
    let entries = match lang {
        Lang::En => en_entries(),
        Lang::Zh => zh_entries(),
    };
    lookup_in(&entries, key)
}

/// Translates `key` for `lang`; falls back to English, and to the key
/// itself when even English lacks it.
pub fn t(lang: Lang, key: &str) -> (r: String)
    ensures
        r@ == translate(lang, key@),
{
    if let Some(v) = lookup(lang, key) {
        return owned(v);
    }
    if lang != Lang::En {
        if let Some(v) = lookup(Lang::En, key) {
            return owned(v);
        }
    }
    owned(key)
}

/// Every translation key, in table order.
pub fn all_keys() -> (r: Vec<&'static str>)
    ensures
        r@.map_values(|k: &str| k@) == known_keys(),
{
    let v = vec![
        "nav.new",
        "nav.logout",
        "login.title",
        "login.heading",
        "login.tagline",
        "login.access_key_label",
        "login.access_key_placeholder",
        "login.button",
        "login.error",
        "records.empty",
        "records.empty_new",
        "records.empty_tail",
        "records.undecryptable",
        "records.untitled",
        "records.copy",
        "records.edit",
        "records.delete",
        "records.delete_confirm",
        "records.prev",
        "records.next",
        "records.page_info",
        "form.title_label",
        "form.title_placeholder",
        "form.content_label",
        "form.content_placeholder",
        "form.attachments",
        "form.max_each",
        "form.dropzone",
        "form.cancel",
        "form.save",
        "form.new_title",
        "form.edit_title",
        "att.download",
        "att.delete_confirm",
        "att.delete_title",
        "js.copied",
        "js.copy_failed",
        "js.just_now",
        "js.minute_ago",
        "js.minutes_ago",
        "js.hour_ago",
        "js.hours_ago",
        "js.yesterday",
        "js.exceeds_max",
        "js.skipped",
        "rate.too_many",
    ];
    assert(v@.map_values(|k: &str| k@) =~= known_keys());
    v
}

proof fn lemma_lookup_some_iff_key(table: Seq<(Seq<char>, Seq<char>)>, key: Seq<char>)
    ensures
        lookup_seq(table, key) is Some <==> table_keys(table).contains(key),
    decreases table.len(),
{
    if table.len() > 0 {
        lemma_lookup_some_iff_key(table.drop_first(), key);
        assert(table_keys(table.drop_first()) =~= table_keys(table).drop_first());
        if table[0].0 == key {
            assert(table_keys(table)[0] == key);
        } else {
            if table_keys(table).contains(key) {
                let i = choose|i: int|
                    0 <= i < table_keys(table).len() && table_keys(table)[i] == key;
                assert(table_keys(table).drop_first()[i - 1] == key);
            }
            if table_keys(table.drop_first()).contains(key) {
                let j = choose|j: int|
                    0 <= j < table_keys(table.drop_first()).len() && table_keys(
                        table.drop_first(),
                    )[j] == key;
                assert(table_keys(table)[j + 1] == key);
            }
        }
    }
}

/// Key parity: the English and the Chinese table each hold exactly the
/// keys of `all_keys`.
pub proof fn law_key_parity(key: Seq<char>)
    ensures
        lookup_seq(en_table(), key) is Some <==> known_keys().contains(key),
        lookup_seq(zh_table(), key) is Some <==> known_keys().contains(key),
{
    assert(table_keys(en_table()) =~= known_keys());
    assert(table_keys(zh_table()) =~= known_keys());
    lemma_lookup_some_iff_key(en_table(), key);
    lemma_lookup_some_iff_key(zh_table(), key);
}

/// A number that tells the keys apart: the length, the fourth character
/// and the fourth character from the end.
spec fn key_mark(k: Seq<char>) -> int {
    k.len() * 65536 + (k[3] as int) * 256 + (k[k.len() - 4] as int)
}

/// The mark of the key at position `i`.
spec fn key_mark_at(i: int) -> int {
    if i == 0 {
        470574
    } else
    if i == 1 {
        667239
    } else
    if i == 2 {
        747881
    } else
    if i == 3 {
        878948
    } else
    if i == 4 {
        878956
    } else
    if i == 5 {
        1468769
    } else
    if i == 6 {
        1861996
    } else
    if i == 7 {
        813428
    } else
    if i == 8 {
        747890
    } else
    if i == 9 {
        880493
    } else
    if i == 10 {
        1142623
    } else
    if i == 11 {
        1208180
    } else
    if i == 12 {
        1404769
    } else
    if i == 13 {
        1077108
    } else
    if i == 14 {
        814947
    } else
    if i == 15 {
        814949
    } else
    if i == 16 {
        946028
    } else
    if i == 17 {
        1470310
    } else
    if i == 18 {
        814960
    } else
    if i == 19 {
        814958
    } else
    if i == 20 {
        1142633
    } else
    if i == 21 {
        1076577
    } else
    if i == 22 {
        1469804
    } else
    if i == 23 {
        1207649
    } else
    if i == 24 {
        1600876
    } else
    if i == 25 {
        1076581
    } else
    if i == 26 {
        879973
    } else
    if i == 27 {
        879994
    } else
    if i == 28 {
        748910
    } else
    if i == 29 {
        617843
    } else
    if i == 30 {
        945513
    } else
    if i == 31 {
        1011049
    } else
    if i == 32 {
        798316
    } else
    if i == 33 {
        1191526
    } else
    if i == 34 {
        1060457
    } else
    if i == 35 {
        615280
    } else
    if i == 36 {
        942953
    } else
    if i == 37 {
        748127
    } else
    if i == 38 {
        879967
    } else
    if i == 39 {
        945503
    } else
    if i == 40 {
        747615
    } else
    if i == 41 {
        813151
    } else
    if i == 42 {
        817522
    } else
    if i == 43 {
        943455
    } else
    if i == 44 {
        684912
    } else {
        877933
    }
}

/// The keys are 46 distinct names.
pub proof fn law_known_keys_distinct()
    ensures
        known_keys().len() == 46,
        known_keys().no_duplicates(),
{
    assert forall|i: int| 0 <= i < 46 implies key_mark(#[trigger] known_keys()[i]) == key_mark_at(i) by {
        if i == 0 {
            reveal_strlit("nav.new");
        } else if i == 1 {
            reveal_strlit("nav.logout");
        } else if i == 2 {
            reveal_strlit("login.title");
        } else if i == 3 {
            reveal_strlit("login.heading");
        } else if i == 4 {
            reveal_strlit("login.tagline");
        } else if i == 5 {
            reveal_strlit("login.access_key_label");
        } else if i == 6 {
            reveal_strlit("login.access_key_placeholder");
        } else if i == 7 {
            reveal_strlit("login.button");
        } else if i == 8 {
            reveal_strlit("login.error");
        } else if i == 9 {
            reveal_strlit("records.empty");
        } else if i == 10 {
            reveal_strlit("records.empty_new");
        } else if i == 11 {
            reveal_strlit("records.empty_tail");
        } else if i == 12 {
            reveal_strlit("records.undecryptable");
        } else if i == 13 {
            reveal_strlit("records.untitled");
        } else if i == 14 {
            reveal_strlit("records.copy");
        } else if i == 15 {
            reveal_strlit("records.edit");
        } else if i == 16 {
            reveal_strlit("records.delete");
        } else if i == 17 {
            reveal_strlit("records.delete_confirm");
        } else if i == 18 {
            reveal_strlit("records.prev");
        } else if i == 19 {
            reveal_strlit("records.next");
        } else if i == 20 {
            reveal_strlit("records.page_info");
        } else if i == 21 {
            reveal_strlit("form.title_label");
        } else if i == 22 {
            reveal_strlit("form.title_placeholder");
        } else if i == 23 {
            reveal_strlit("form.content_label");
        } else if i == 24 {
            reveal_strlit("form.content_placeholder");
        } else if i == 25 {
            reveal_strlit("form.attachments");
        } else if i == 26 {
            reveal_strlit("form.max_each");
        } else if i == 27 {
            reveal_strlit("form.dropzone");
        } else if i == 28 {
            reveal_strlit("form.cancel");
        } else if i == 29 {
            reveal_strlit("form.save");
        } else if i == 30 {
            reveal_strlit("form.new_title");
        } else if i == 31 {
            reveal_strlit("form.edit_title");
        } else if i == 32 {
            reveal_strlit("att.download");
        } else if i == 33 {
            reveal_strlit("att.delete_confirm");
        } else if i == 34 {
            reveal_strlit("att.delete_title");
        } else if i == 35 {
            reveal_strlit("js.copied");
        } else if i == 36 {
            reveal_strlit("js.copy_failed");
        } else if i == 37 {
            reveal_strlit("js.just_now");
        } else if i == 38 {
            reveal_strlit("js.minute_ago");
        } else if i == 39 {
            reveal_strlit("js.minutes_ago");
        } else if i == 40 {
            reveal_strlit("js.hour_ago");
        } else if i == 41 {
            reveal_strlit("js.hours_ago");
        } else if i == 42 {
            reveal_strlit("js.yesterday");
        } else if i == 43 {
            reveal_strlit("js.exceeds_max");
        } else if i == 44 {
            reveal_strlit("js.skipped");
        } else if i == 45 {
            reveal_strlit("rate.too_many");
        }
    }
    assert forall|i: int, j: int|
        0 <= i < known_keys().len() && 0 <= j < known_keys().len() && i != j implies known_keys()[i]
        != known_keys()[j] by {
        assert(key_mark_at(i) != key_mark_at(j));
        assert(key_mark(known_keys()[i]) == key_mark_at(i));
        assert(key_mark(known_keys()[j]) == key_mark_at(j));
    }
}

/// A known key is shown from the language's own table, never by
/// fallback; an unknown key is shown as itself in every language.
pub proof fn law_translation_fallback(lang: Lang, key: Seq<char>)
    ensures
        known_keys().contains(key) ==> (lookup_seq(table_of(lang), key) matches Some(v)
            && translate(lang, key) == v),
        !known_keys().contains(key) ==> translate(lang, key) == key,
{
    law_key_parity(key);
}

/// In a table whose keys are distinct, a key's lookup gives the text that
/// stands beside it.
proof fn lemma_lookup_at(table: Seq<(Seq<char>, Seq<char>)>, i: int)
    requires
        0 <= i < table.len(),
        table_keys(table).no_duplicates(),
    ensures
        lookup_seq(table, table[i].0) == Some(table[i].1),
    decreases i,
{
    if i > 0 {
        let rest = table.drop_first();
        let keys = table_keys(table);
        assert(table_keys(rest) =~= keys.drop_first());
        assert(keys[0] != keys[i]);
        assert forall|a: int, b: int|
            0 <= a < table_keys(rest).len() && 0 <= b < table_keys(rest).len() && a != b implies table_keys(
            rest,
        )[a] != table_keys(rest)[b] by {
            assert(table_keys(rest)[a] == keys[a + 1]);
            assert(table_keys(rest)[b] == keys[b + 1]);
        }
        assert(rest[i - 1] == table[i]);
        lemma_lookup_at(rest, i - 1);
    }
}

/// Each key of a language's table is translated, in that language, to the
/// text beside it.
proof fn lemma_table_texts(lang: Lang)
    ensures
        forall|i: int|
            0 <= i < table_of(lang).len() ==> #[trigger] translate(lang, table_of(lang)[i].0)
                == table_of(lang)[i].1,
{
    law_known_keys_distinct();
    assert(table_keys(en_table()) =~= known_keys());
    assert(table_keys(zh_table()) =~= known_keys());
    assert forall|i: int| 0 <= i < table_of(lang).len() implies #[trigger] translate(
        lang,
        table_of(lang)[i].0,
    ) == table_of(lang)[i].1 by {
        lemma_lookup_at(table_of(lang), i);
    }
}

/// The English text of every key, as the interface shows it.
#[verifier::rlimit(60)]
pub proof fn law_english_texts()
    ensures
        translate(Lang::En, "nav.new"@) == "+ New"@,
        translate(Lang::En, "nav.logout"@) == "Logout"@,
        translate(Lang::En, "login.title"@) == "aardbin · Login"@,
        translate(Lang::En, "login.heading"@) == "aardbin"@,
        translate(Lang::En, "login.tagline"@) == "Your private bin."@,
        translate(Lang::En, "login.access_key_label"@) == "Access Key"@,
        translate(Lang::En, "login.access_key_placeholder"@) == "Access Key"@,
        translate(Lang::En, "login.button"@) == "Login"@,
        translate(Lang::En, "login.error"@) == "Invalid access key"@,
        translate(Lang::En, "records.empty"@) == "Nothing here yet. Click "@,
        translate(Lang::En, "records.empty_new"@) == "+ New"@,
        translate(Lang::En, "records.empty_tail"@) == " to drop something."@,
        translate(Lang::En, "records.undecryptable"@) == "⚠ Unable to decrypt"@,
        translate(Lang::En, "records.untitled"@) == "Untitled"@,
        translate(Lang::En, "records.copy"@) == "Copy"@,
        translate(Lang::En, "records.edit"@) == "Edit"@,
        translate(Lang::En, "records.delete"@) == "Delete"@,
        translate(Lang::En, "records.delete_confirm"@) == "Delete this record?"@,
        translate(Lang::En, "records.prev"@) == "← Prev"@,
        translate(Lang::En, "records.next"@) == "Next →"@,
        translate(Lang::En, "records.page_info"@) == "Page {page} / {total_pages} · {total} records"@,
        translate(Lang::En, "form.title_label"@) == "Title"@,
        translate(Lang::En, "form.title_placeholder"@) == "Optional title"@,
        translate(Lang::En, "form.content_label"@) == "Content"@,
        translate(Lang::En, "form.content_placeholder"@) == "Paste text, code, config..."@,
        translate(Lang::En, "form.attachments"@) == "Attachments"@,
        translate(Lang::En, "form.max_each"@) == "max {size} each"@,
        translate(Lang::En, "form.dropzone"@) == "Drop files here or click to select"@,
        translate(Lang::En, "form.cancel"@) == "Cancel"@,
        translate(Lang::En, "form.save"@) == "Save"@,
        translate(Lang::En, "form.new_title"@) == "New"@,
        translate(Lang::En, "form.edit_title"@) == "Edit"@,
        translate(Lang::En, "att.download"@) == "Download"@,
        translate(Lang::En, "att.delete_confirm"@) == "Delete this attachment?"@,
        translate(Lang::En, "att.delete_title"@) == "Delete attachment"@,
        translate(Lang::En, "js.copied"@) == "Copied"@,
        translate(Lang::En, "js.copy_failed"@) == "Copy failed"@,
        translate(Lang::En, "js.just_now"@) == "just now"@,
        translate(Lang::En, "js.minute_ago"@) == "1 minute ago"@,
        translate(Lang::En, "js.minutes_ago"@) == "{n} minutes ago"@,
        translate(Lang::En, "js.hour_ago"@) == "1 hour ago"@,
        translate(Lang::En, "js.hours_ago"@) == "{n} hours ago"@,
        translate(Lang::En, "js.yesterday"@) == "yesterday"@,
        translate(Lang::En, "js.exceeds_max"@) == "exceeds max"@,
        translate(Lang::En, "js.skipped"@) == "skipped"@,
        translate(Lang::En, "rate.too_many"@) == "Too many attempts. Try again in {minutes} minute{plural}."@,
{
    lemma_table_texts(Lang::En);
    assert(translate(Lang::En, table_of(Lang::En)[0].0) == table_of(Lang::En)[0].1);
    assert(translate(Lang::En, table_of(Lang::En)[1].0) == table_of(Lang::En)[1].1);
    assert(translate(Lang::En, table_of(Lang::En)[2].0) == table_of(Lang::En)[2].1);
    assert(translate(Lang::En, table_of(Lang::En)[3].0) == table_of(Lang::En)[3].1);
    assert(translate(Lang::En, table_of(Lang::En)[4].0) == table_of(Lang::En)[4].1);
    assert(translate(Lang::En, table_of(Lang::En)[5].0) == table_of(Lang::En)[5].1);
    assert(translate(Lang::En, table_of(Lang::En)[6].0) == table_of(Lang::En)[6].1);
    assert(translate(Lang::En, table_of(Lang::En)[7].0) == table_of(Lang::En)[7].1);
    assert(translate(Lang::En, table_of(Lang::En)[8].0) == table_of(Lang::En)[8].1);
    assert(translate(Lang::En, table_of(Lang::En)[9].0) == table_of(Lang::En)[9].1);
    assert(translate(Lang::En, table_of(Lang::En)[10].0) == table_of(Lang::En)[10].1);
    assert(translate(Lang::En, table_of(Lang::En)[11].0) == table_of(Lang::En)[11].1);
    assert(translate(Lang::En, table_of(Lang::En)[12].0) == table_of(Lang::En)[12].1);
    assert(translate(Lang::En, table_of(Lang::En)[13].0) == table_of(Lang::En)[13].1);
    assert(translate(Lang::En, table_of(Lang::En)[14].0) == table_of(Lang::En)[14].1);
    assert(translate(Lang::En, table_of(Lang::En)[15].0) == table_of(Lang::En)[15].1);
    assert(translate(Lang::En, table_of(Lang::En)[16].0) == table_of(Lang::En)[16].1);
    assert(translate(Lang::En, table_of(Lang::En)[17].0) == table_of(Lang::En)[17].1);
    assert(translate(Lang::En, table_of(Lang::En)[18].0) == table_of(Lang::En)[18].1);
    assert(translate(Lang::En, table_of(Lang::En)[19].0) == table_of(Lang::En)[19].1);
    assert(translate(Lang::En, table_of(Lang::En)[20].0) == table_of(Lang::En)[20].1);
    assert(translate(Lang::En, table_of(Lang::En)[21].0) == table_of(Lang::En)[21].1);
    assert(translate(Lang::En, table_of(Lang::En)[22].0) == table_of(Lang::En)[22].1);
    assert(translate(Lang::En, table_of(Lang::En)[23].0) == table_of(Lang::En)[23].1);
    assert(translate(Lang::En, table_of(Lang::En)[24].0) == table_of(Lang::En)[24].1);
    assert(translate(Lang::En, table_of(Lang::En)[25].0) == table_of(Lang::En)[25].1);
    assert(translate(Lang::En, table_of(Lang::En)[26].0) == table_of(Lang::En)[26].1);
    assert(translate(Lang::En, table_of(Lang::En)[27].0) == table_of(Lang::En)[27].1);
    assert(translate(Lang::En, table_of(Lang::En)[28].0) == table_of(Lang::En)[28].1);
    assert(translate(Lang::En, table_of(Lang::En)[29].0) == table_of(Lang::En)[29].1);
    assert(translate(Lang::En, table_of(Lang::En)[30].0) == table_of(Lang::En)[30].1);
    assert(translate(Lang::En, table_of(Lang::En)[31].0) == table_of(Lang::En)[31].1);
    assert(translate(Lang::En, table_of(Lang::En)[32].0) == table_of(Lang::En)[32].1);
    assert(translate(Lang::En, table_of(Lang::En)[33].0) == table_of(Lang::En)[33].1);
    assert(translate(Lang::En, table_of(Lang::En)[34].0) == table_of(Lang::En)[34].1);
    assert(translate(Lang::En, table_of(Lang::En)[35].0) == table_of(Lang::En)[35].1);
    assert(translate(Lang::En, table_of(Lang::En)[36].0) == table_of(Lang::En)[36].1);
    assert(translate(Lang::En, table_of(Lang::En)[37].0) == table_of(Lang::En)[37].1);
    assert(translate(Lang::En, table_of(Lang::En)[38].0) == table_of(Lang::En)[38].1);
    assert(translate(Lang::En, table_of(Lang::En)[39].0) == table_of(Lang::En)[39].1);
    assert(translate(Lang::En, table_of(Lang::En)[40].0) == table_of(Lang::En)[40].1);
    assert(translate(Lang::En, table_of(Lang::En)[41].0) == table_of(Lang::En)[41].1);
    assert(translate(Lang::En, table_of(Lang::En)[42].0) == table_of(Lang::En)[42].1);
    assert(translate(Lang::En, table_of(Lang::En)[43].0) == table_of(Lang::En)[43].1);
    assert(translate(Lang::En, table_of(Lang::En)[44].0) == table_of(Lang::En)[44].1);
    assert(translate(Lang::En, table_of(Lang::En)[45].0) == table_of(Lang::En)[45].1);
}

/// The Chinese text of every key, as the interface shows it.
#[verifier::rlimit(60)]
pub proof fn law_chinese_texts()
    ensures
        translate(Lang::Zh, "nav.new"@) == "+ 新建"@,
        translate(Lang::Zh, "nav.logout"@) == "退出"@,
        translate(Lang::Zh, "login.title"@) == "aardbin · 登录"@,
        translate(Lang::Zh, "login.heading"@) == "aardbin"@,
        translate(Lang::Zh, "login.tagline"@) == "你的私人记事本。"@,
        translate(Lang::Zh, "login.access_key_label"@) == "访问密钥"@,
        translate(Lang::Zh, "login.access_key_placeholder"@) == "访问密钥"@,
        translate(Lang::Zh, "login.button"@) == "登录"@,
        translate(Lang::Zh, "login.error"@) == "访问密钥无效"@,
        translate(Lang::Zh, "records.empty"@) == "暂无内容。点击"@,
        translate(Lang::Zh, "records.empty_new"@) == "+ 新建"@,
        translate(Lang::Zh, "records.empty_tail"@) == "添加记录。"@,
        translate(Lang::Zh, "records.undecryptable"@) == "⚠ 无法解密"@,
        translate(Lang::Zh, "records.untitled"@) == "无标题"@,
        translate(Lang::Zh, "records.copy"@) == "复制"@,
        translate(Lang::Zh, "records.edit"@) == "编辑"@,
        translate(Lang::Zh, "records.delete"@) == "删除"@,
        translate(Lang::Zh, "records.delete_confirm"@) == "确定删除此记录？"@,
        translate(Lang::Zh, "records.prev"@) == "← 上页"@,
        translate(Lang::Zh, "records.next"@) == "下页 →"@,
        translate(Lang::Zh, "records.page_info"@) == "第 {page} / {total_pages} 页 · {total} 条记录"@,
        translate(Lang::Zh, "form.title_label"@) == "标题"@,
        translate(Lang::Zh, "form.title_placeholder"@) == "可选标题"@,
        translate(Lang::Zh, "form.content_label"@) == "正文"@,
        translate(Lang::Zh, "form.content_placeholder"@) == "粘贴文本、代码、配置…"@,
        translate(Lang::Zh, "form.attachments"@) == "附件"@,
        translate(Lang::Zh, "form.max_each"@) == "每个最大 {size}"@,
        translate(Lang::Zh, "form.dropzone"@) == "拖放文件到此处或点击选择"@,
        translate(Lang::Zh, "form.cancel"@) == "取消"@,
        translate(Lang::Zh, "form.save"@) == "保存"@,
        translate(Lang::Zh, "form.new_title"@) == "新建"@,
        translate(Lang::Zh, "form.edit_title"@) == "编辑"@,
        translate(Lang::Zh, "att.download"@) == "下载"@,
        translate(Lang::Zh, "att.delete_confirm"@) == "确定删除此附件？"@,
        translate(Lang::Zh, "att.delete_title"@) == "删除附件"@,
        translate(Lang::Zh, "js.copied"@) == "已复制"@,
        translate(Lang::Zh, "js.copy_failed"@) == "复制失败"@,
        translate(Lang::Zh, "js.just_now"@) == "刚刚"@,
        translate(Lang::Zh, "js.minute_ago"@) == "1 分钟前"@,
        translate(Lang::Zh, "js.minutes_ago"@) == "{n} 分钟前"@,
        translate(Lang::Zh, "js.hour_ago"@) == "1 小时前"@,
        translate(Lang::Zh, "js.hours_ago"@) == "{n} 小时前"@,
        translate(Lang::Zh, "js.yesterday"@) == "昨天"@,
        translate(Lang::Zh, "js.exceeds_max"@) == "超过最大"@,
        translate(Lang::Zh, "js.skipped"@) == "已跳过"@,
        translate(Lang::Zh, "rate.too_many"@) == "尝试次数过多，请在 {minutes} 分钟后重试。"@,
{
    lemma_table_texts(Lang::Zh);
    assert(translate(Lang::Zh, table_of(Lang::Zh)[0].0) == table_of(Lang::Zh)[0].1);
    assert(translate(Lang::Zh, table_of(Lang::Zh)[1].0) == table_of(Lang::Zh)[1].1);
    assert(translate(Lang::Zh, table_of(Lang::Zh)[2].0) == table_of(Lang::Zh)[2].1);
    assert(translate(Lang::Zh, table_of(Lang::Zh)[3].0) == table_of(Lang::Zh)[3].1);
    assert(translate(Lang::Zh, table_of(Lang::Zh)[4].0) == table_of(Lang::Zh)[4].1);
    assert(translate(Lang::Zh, table_of(Lang::Zh)[5].0) == table_of(Lang::Zh)[5].1);
    assert(translate(Lang::Zh, table_of(Lang::Zh)[6].0) == table_of(Lang::Zh)[6].1);
    assert(translate(Lang::Zh, table_of(Lang::Zh)[7].0) == table_of(Lang::Zh)[7].1);
    assert(translate(Lang::Zh, table_of(Lang::Zh)[8].0) == table_of(Lang::Zh)[8].1);
    assert(translate(Lang::Zh, table_of(Lang::Zh)[9].0) == table_of(Lang::Zh)[9].1);
    assert(translate(Lang::Zh, table_of(Lang::Zh)[10].0) == table_of(Lang::Zh)[10].1);
    assert(translate(Lang::Zh, table_of(Lang::Zh)[11].0) == table_of(Lang::Zh)[11].1);
    assert(translate(Lang::Zh, table_of(Lang::Zh)[12].0) == table_of(Lang::Zh)[12].1);
    assert(translate(Lang::Zh, table_of(Lang::Zh)[13].0) == table_of(Lang::Zh)[13].1);
    assert(translate(Lang::Zh, table_of(Lang::Zh)[14].0) == table_of(Lang::Zh)[14].1);
    assert(translate(Lang::Zh, table_of(Lang::Zh)[15].0) == table_of(Lang::Zh)[15].1);
    assert(translate(Lang::Zh, table_of(Lang::Zh)[16].0) == table_of(Lang::Zh)[16].1);
    assert(translate(Lang::Zh, table_of(Lang::Zh)[17].0) == table_of(Lang::Zh)[17].1);
    assert(translate(Lang::Zh, table_of(Lang::Zh)[18].0) == table_of(Lang::Zh)[18].1);
    assert(translate(Lang::Zh, table_of(Lang::Zh)[19].0) == table_of(Lang::Zh)[19].1);
    assert(translate(Lang::Zh, table_of(Lang::Zh)[20].0) == table_of(Lang::Zh)[20].1);
    assert(translate(Lang::Zh, table_of(Lang::Zh)[21].0) == table_of(Lang::Zh)[21].1);
    assert(translate(Lang::Zh, table_of(Lang::Zh)[22].0) == table_of(Lang::Zh)[22].1);
    assert(translate(Lang::Zh, table_of(Lang::Zh)[23].0) == table_of(Lang::Zh)[23].1);
    assert(translate(Lang::Zh, table_of(Lang::Zh)[24].0) == table_of(Lang::Zh)[24].1);
    assert(translate(Lang::Zh, table_of(Lang::Zh)[25].0) == table_of(Lang::Zh)[25].1);
    assert(translate(Lang::Zh, table_of(Lang::Zh)[26].0) == table_of(Lang::Zh)[26].1);
    assert(translate(Lang::Zh, table_of(Lang::Zh)[27].0) == table_of(Lang::Zh)[27].1);
    assert(translate(Lang::Zh, table_of(Lang::Zh)[28].0) == table_of(Lang::Zh)[28].1);
    assert(translate(Lang::Zh, table_of(Lang::Zh)[29].0) == table_of(Lang::Zh)[29].1);
    assert(translate(Lang::Zh, table_of(Lang::Zh)[30].0) == table_of(Lang::Zh)[30].1);
    assert(translate(Lang::Zh, table_of(Lang::Zh)[31].0) == table_of(Lang::Zh)[31].1);
    assert(translate(Lang::Zh, table_of(Lang::Zh)[32].0) == table_of(Lang::Zh)[32].1);
    assert(translate(Lang::Zh, table_of(Lang::Zh)[33].0) == table_of(Lang::Zh)[33].1);
    assert(translate(Lang::Zh, table_of(Lang::Zh)[34].0) == table_of(Lang::Zh)[34].1);
    assert(translate(Lang::Zh, table_of(Lang::Zh)[35].0) == table_of(Lang::Zh)[35].1);
    assert(translate(Lang::Zh, table_of(Lang::Zh)[36].0) == table_of(Lang::Zh)[36].1);
    assert(translate(Lang::Zh, table_of(Lang::Zh)[37].0) == table_of(Lang::Zh)[37].1);
    assert(translate(Lang::Zh, table_of(Lang::Zh)[38].0) == table_of(Lang::Zh)[38].1);
    assert(translate(Lang::Zh, table_of(Lang::Zh)[39].0) == table_of(Lang::Zh)[39].1);
    assert(translate(Lang::Zh, table_of(Lang::Zh)[40].0) == table_of(Lang::Zh)[40].1);
    assert(translate(Lang::Zh, table_of(Lang::Zh)[41].0) == table_of(Lang::Zh)[41].1);
    assert(translate(Lang::Zh, table_of(Lang::Zh)[42].0) == table_of(Lang::Zh)[42].1);
    assert(translate(Lang::Zh, table_of(Lang::Zh)[43].0) == table_of(Lang::Zh)[43].1);
    assert(translate(Lang::Zh, table_of(Lang::Zh)[44].0) == table_of(Lang::Zh)[44].1);
    assert(translate(Lang::Zh, table_of(Lang::Zh)[45].0) == table_of(Lang::Zh)[45].1);
}

// ---------------------------------------------------------------------------
// Choosing the language of a request
// ---------------------------------------------------------------------------

/// The language a cookie value names, once trimmed.
pub open spec fn cookie_lang(v: Seq<char>) -> Option<Lang> {
    let t = trim_seq(v);
    if t == "zh"@ || t == "zh-CN"@ || t == "zh-cn"@ {
        Some(Lang::Zh)
    } else if t == "en"@ || t == "en-US"@ || t == "en-us"@ {
        Some(Lang::En)
    } else {
        None
    }
}

/// The tag of one `Accept-Language` entry: what precedes its first `;`,
/// trimmed, in ASCII lower case.
pub open spec fn accept_tag(part: Seq<char>) -> Seq<char> {
    let i = index_of_from(part, ';', 0);
    let head = if i >= 0 {
        part.take(i)
    } else {
        part
    };
    lower_seq(trim_seq(head))
}

/// The language a tag starts with, if it is one of ours.
pub open spec fn tag_lang(tag: Seq<char>) -> Option<Lang> {
    if tag.len() >= 2 && tag.take(2) == "zh"@ {
        Some(Lang::Zh)
    } else if tag.len() >= 2 && tag.take(2) == "en"@ {
        Some(Lang::En)
    } else {
        None
    }
}

/// The language of the first `,`-separated entry of an `Accept-Language`
/// header whose tag is ours.
pub open spec fn accept_lang_choice(al: Seq<char>) -> Option<Lang>
    decreases al.len(),
{
    let i = index_of_from(al, ',', 0);
    let part = if i >= 0 {
        al.take(i)
    } else {
        al
    };
    match tag_lang(accept_tag(part)) {
        Some(l) => Some(l),
        None => if i >= 0 {
            proof {
                lemma_index_of_from(al, ',', 0);
            }
            accept_lang_choice(al.skip(i + 1))
        } else {
            None
        },
    }
}

/// Cookie first, then `Accept-Language`, then English.
pub open spec fn resolve_lang(cookie: Option<Seq<char>>, accept: Option<Seq<char>>) -> Lang {
    let from_cookie = match cookie {
        Some(c) => cookie_lang(c),
        None => None,
    };
    match from_cookie {
        Some(l) => l,
        None => match accept {
            Some(a) => match accept_lang_choice(a) {
                Some(l) => l,
                None => Lang::En,
            },
            None => Lang::En,
        },
    }
}

fn chars_are(v: &Vec<char>, lit: &str) -> (r: bool)
    ensures
        r == (v@ == lit@),
{
    let l = chars_of(lit);
    crate::text::chars_eq(v, &l)
}

fn lang_of_cookie(c: &str) -> (r: Option<Lang>)
    ensures
        r == cookie_lang(c@),
{
    let t = crate::text::trim_str(c);
    if chars_are(&t, "zh") || chars_are(&t, "zh-CN") || chars_are(&t, "zh-cn") {
        Some(Lang::Zh)
    } else if chars_are(&t, "en") || chars_are(&t, "en-US") || chars_are(&t, "en-us") {
        Some(Lang::En)
    } else {
        None
    }
}

fn lang_of_tag(tag: &Vec<char>) -> (r: Option<Lang>)
    ensures
        r == tag_lang(tag@),
{
    let zh = chars_of("zh");
    let en = chars_of("en");
    proof {
        reveal_strlit("zh");
        reveal_strlit("en");
    }
    if starts_with_chars(tag, &zh) {
        Some(Lang::Zh)
    } else if starts_with_chars(tag, &en) {
        Some(Lang::En)
    } else {
        None
    }
}

fn lang_of_accept(al: &str) -> (r: Option<Lang>)
    ensures
        r == accept_lang_choice(al@),
{
    let mut cur = chars_of(al);
    loop
        invariant
            accept_lang_choice(al@) == accept_lang_choice(cur@),
        decreases cur@.len(),
    {
        let i = find_char_from(&cur, ',', 0);
        proof {
            lemma_index_of_from(cur@, ',', 0);
        }
        let part = match i {
            Some(k) => sub_chars(&cur, 0, k),
            None => sub_chars(&cur, 0, cur.len()),
        };
        proof {
            if i is None {
                assert(cur@.subrange(0, cur@.len() as int) =~= cur@);
            }
        }
        let j = find_char_from(&part, ';', 0);
        proof {
            lemma_index_of_from(part@, ';', 0);
        }
        let head = match j {
            Some(k) => sub_chars(&part, 0, k),
            None => sub_chars(&part, 0, part.len()),
        };
        proof {
            if j is None {
                assert(part@.subrange(0, part@.len() as int) =~= part@);
            }
        }
        let trimmed = trim_chars(&head);
        let tag = lower_chars(&trimmed);
        match lang_of_tag(&tag) {
            Some(l) => {
                return Some(l);
            },
            None => {},
        }
        match i {
            Some(k) => {
                let next = sub_chars(&cur, k + 1, cur.len());
                assert(next@ =~= cur@.skip(k + 1));
                cur = next;
            },
            None => {
                return None;
            },
        }
    }
}

/// The language of a request, from its `aardbin_lang` cookie value and its
/// `Accept-Language` header.
pub fn resolve(cookie_val: Option<&str>, accept_lang: Option<&str>) -> (r: Lang)
    ensures
        r == resolve_lang(crate::text::opt_view(cookie_val), crate::text::opt_view(accept_lang)),
{
    if let Some(c) = cookie_val {
        if let Some(l) = lang_of_cookie(c) {
            return l;
        }
    }
    if let Some(al) = accept_lang {
        if let Some(l) = lang_of_accept(al) {
            return l;
        }
    }
    Lang::En
}

/// Without a language cookie, the language is that of the first
/// `,`-separated `Accept-Language` entry whose tag (what precedes its first
/// `;`, trimmed, in ASCII lower case) starts with `zh` or `en`, and English
/// when there is none. Here `part` is the first entry and `rest`, if any,
/// what follows its comma.
pub proof fn law_accept_language_first_ours(part: Seq<char>, rest: Option<Seq<char>>)
    requires
        !part.contains(','),
    ensures
        ({
            let al = match rest {
                Some(r) => part + seq![','] + r,
                None => part,
            };
            let tag = accept_tag(part);
            let zh = tag.len() >= 2 && tag[0] == 'z' && tag[1] == 'h';
            let en = tag.len() >= 2 && tag[0] == 'e' && tag[1] == 'n';
            &&& zh ==> resolve_lang(None, Some(al)) == Lang::Zh
            &&& en ==> resolve_lang(None, Some(al)) == Lang::En
            &&& (!zh && !en) ==> resolve_lang(None, Some(al)) == match rest {
                Some(r) => resolve_lang(None, Some(r)),
                None => Lang::En,
            }
        }),
{
    let al = match rest {
        Some(r) => part + seq![','] + r,
        None => part,
    };
    reveal_strlit("zh");
    reveal_strlit("en");
    lemma_index_of_from(al, ',', 0);
    let i = index_of_from(al, ',', 0);
    assert forall|j: int| 0 <= j < part.len() implies al[j] != ',' by {
        assert(al[j] == part[j]);
    }
    match rest {
        Some(r) => {
            assert(al[part.len() as int] == ',');
            assert(i == part.len());
            assert(al.take(i) =~= part);
            assert(al.skip(i + 1) =~= r);
        },
        None => {
            assert(i == -1);
        },
    }
    let tag = accept_tag(part);
    if tag.len() >= 2 {
        if tag[0] == 'z' && tag[1] == 'h' {
            assert(tag.take(2) =~= "zh"@);
        }
        if tag[0] == 'e' && tag[1] == 'n' {
            assert(tag.take(2) =~= "en"@);
        }
        if tag.take(2) == "zh"@ {
            assert(tag[0] == tag.take(2)[0] && tag[1] == tag.take(2)[1]);
        }
        if tag.take(2) == "en"@ {
            assert(tag[0] == tag.take(2)[0] && tag[1] == tag.take(2)[1]);
        }
    }
}

/// A language cookie that names a language, once trimmed (`zh`, `zh-CN`,
/// `zh-cn`, `en`, `en-US`, `en-us`), decides whatever the header says; any
/// other cookie is ignored.
pub proof fn law_cookie_first(c: Seq<char>, accept: Option<Seq<char>>)
    ensures
        ({
            let t = trim_seq(c);
            &&& (t == "zh"@ || t == "zh-CN"@ || t == "zh-cn"@) ==> resolve_lang(Some(c), accept)
                == Lang::Zh
            &&& (t == "en"@ || t == "en-US"@ || t == "en-us"@) ==> resolve_lang(Some(c), accept)
                == Lang::En
            &&& !(t == "zh"@ || t == "zh-CN"@ || t == "zh-cn"@ || t == "en"@ || t == "en-US"@ || t
                == "en-us"@) ==> resolve_lang(Some(c), accept) == resolve_lang(None, accept)
        }),
{
    reveal_strlit("zh");
    reveal_strlit("zh-CN");
    reveal_strlit("zh-cn");
    reveal_strlit("en");
    reveal_strlit("en-US");
    reveal_strlit("en-us");
    assert("zh"@[0] != "en"@[0]);
    assert("zh-CN"@[0] != "en"@[0] && "zh-CN"@[0] != "en-US"@[0] && "zh-CN"@[0] != "en-us"@[0]);
    assert("zh-cn"@[0] != "en"@[0] && "zh-cn"@[0] != "en-US"@[0] && "zh-cn"@[0] != "en-us"@[0]);
    assert("zh"@.len() != "en-US"@.len() && "zh"@.len() != "en-us"@.len());
}

/// The name of the language cookie, with its `=`.
pub open spec fn lang_cookie_prefix() -> Seq<char> {
    "aardbin_lang="@
}

/// The language cookie is read from the first `;`-separated pair that,
/// once trimmed, starts with `aardbin_lang=`: its value is what follows.
/// Here `pair` is the first pair and `rest`, if any, what follows its `;`.
pub proof fn law_lang_cookie_first_pair(pair: Seq<char>, rest: Option<Seq<char>>, v: Seq<char>)
    requires
        !pair.contains(';'),
    ensures
        ({
            let h = match rest {
                Some(r) => pair + seq![';'] + r,
                None => pair,
            };
            let t = trim_seq(pair);
            &&& t == "aardbin_lang="@ + v ==> cookie_value_for(h, lang_cookie_prefix()) == Some(v)
            &&& !(t.len() >= 13 && t.take(13) == "aardbin_lang="@) ==> cookie_value_for(
                h,
                lang_cookie_prefix(),
            ) == match rest {
                Some(r) => cookie_value_for(r, lang_cookie_prefix()),
                None => None,
            }
        }),
{
    reveal_strlit("aardbin_lang=");
    let h = match rest {
        Some(r) => pair + seq![';'] + r,
        None => pair,
    };
    lemma_index_of_from(h, ';', 0);
    let i = index_of_from(h, ';', 0);
    assert forall|j: int| 0 <= j < pair.len() implies h[j] != ';' by {
        assert(h[j] == pair[j]);
    }
    match rest {
        Some(r) => {
            assert(h[pair.len() as int] == ';');
            assert(i == pair.len());
            assert(h.take(i) =~= pair);
            assert(h.skip(i + 1) =~= r);
        },
        None => {
            assert(i == -1);
        },
    }
    let t = trim_seq(pair);
    if t == "aardbin_lang="@ + v {
        assert(t.take(13) =~= "aardbin_lang="@);
        assert(t.skip(13) =~= v);
    }
}

/// The value of the `aardbin_lang` cookie in a `Cookie` header: what follows
/// `aardbin_lang=` in the first `;`-separated pair that, once trimmed,
/// starts with it.
pub fn extract_lang_cookie(cookie_header: Option<&str>) -> (r: Option<&str>)
    ensures
        crate::text::opt_view(r) == match crate::text::opt_view(cookie_header) {
            Some(h) => cookie_value_for(h, lang_cookie_prefix()),
            None => None,
        },
{
    match cookie_header {
        None => None,
        Some(h) => {
            let v = chars_of(h);
            let p = chars_of("aardbin_lang=");
            match find_cookie_span(&v, &p) {
                Some((a, b)) => Some(h.substring_char(a, b)),
                None => None,
            }
        },
    }
}

} // verus!
