//! The one-line event renderer: each event becomes one line of readable text,
//! with a coloured `[…]` tag for its kind, the people and groups involved
//! (as `name(number)` where the name cache knows them) and its content. Line
//! breaks are folded, so one event is always one log line.
use vstd::prelude::*;
use crate::event::{
    event_group, ContactKind, Event, FlashFilePhase, HonorKind, MemberDecreaseReason, MessageEvent, Meta, Notice, OnlineFileDirection,
    Request, RequestState, Segment,
};
use crate::ids::{Peer, Scene, Uin};
use crate::matcher::opt_view;
use crate::messages::{entry_for, MessageId, MsgKey};
use crate::names::face_display_spec;
use crate::render::{
    clean_file_name, clean_file_name_spec, clip_name, fold_newlines, fold_spec, lemma_fold_keeps_one_line, group_label, law_fold_single_line, group_name_spec, is_bracketed, label_spec,
    paint_spec, resolve_user, user_label,
    resolve_user_spec, strip_brackets, strip_brackets_spec, truncate_preview, truncate_spec, wrapped,
    RenderOpts, Style, NAME_MAX_CHARS,
};
use crate::text::{decimal, lemma_decimal_one_line, push_decimal, str_eq, trim, trim_spec};

verus! {

/// The short reference of a message: OneBot's message id first, else a
/// non-zero sequence number.
pub open spec fn msg_ref_spec(id: MessageId) -> Option<Seq<char>> {
    match id.onebot_id {
        Some(v) => Some(decimal(v as int)),
        None => if id.seq != 0 {
            Some(decimal(id.seq as int))
        } else {
            None
        },
    }
}

/// The short reference of a message (see [`msg_ref_spec`]).
pub fn msg_ref(id: &MessageId) -> (r: Option<String>)
    ensures
        opt_view(r) == msg_ref_spec(*id),
{
    match id.onebot_id {
        Some(v) => {
            let mut s = String::new();
            push_decimal(&mut s, v as i64);
            assert(s@ =~= decimal(v as int));
            Some(s)
        },
        None => if id.seq != 0 {
            let mut s = String::new();
            push_decimal(&mut s, id.seq);
            assert(s@ =~= decimal(id.seq as int));
            Some(s)
        } else {
            None
        },
    }
}

/// An optional text, trimmed, when that leaves something.
pub open spec fn trimmed_nonempty(o: Option<Seq<char>>) -> Option<Seq<char>> {
    match o {
        Some(s) => if trim_spec(s).len() > 0 {
            Some(trim_spec(s))
        } else {
            None
        },
        None => None,
    }
}

fn trimmed_text(o: &Option<String>) -> (r: Option<String>)
    ensures
        opt_view(r) == trimmed_nonempty(opt_view(*o)),
{
    match o {
        Some(s) => {
            let t = trim(s.as_str());
            if t.as_str().unicode_len() > 0 {
                Some(t)
            } else {
                None
            }
        },
        None => None,
    }
}

/// The first candidate that cleans into a file name.
pub open spec fn media_file_name_spec(filename: Option<Seq<char>>, recv_id: Option<Seq<char>>) -> Option<
    Seq<char>,
> {
    match filename {
        Some(f) if clean_file_name_spec(f) is Some => clean_file_name_spec(f),
        _ => match recv_id {
            Some(r) => clean_file_name_spec(r),
            None => None,
        },
    }
}

fn media_file_name(filename: &Option<String>, recv_id: &Option<String>) -> (r: Option<String>)
    ensures
        opt_view(r) == media_file_name_spec(opt_view(*filename), opt_view(*recv_id)),
{
    if let Some(f) = filename {
        if let Some(c) = clean_file_name(f.as_str()) {
            return Some(c);
        }
    }
    match recv_id {
        Some(r) => clean_file_name(r.as_str()),
        None => None,
    }
}

/// A bracketed placeholder such as `[动画表情]` or `【…】` (after trimming).
pub open spec fn bracketed(s: Seq<char>) -> bool {
    wrapped(trim_spec(s), '[', ']') || wrapped(trim_spec(s), '【', '】')
}

/// The placeholder label of an image: `[kind caption? file?]`. A bracketed
/// summary names the kind; another summary is a caption (cut to 16
/// characters); the kind is otherwise `图片`.
pub open spec fn image_label_spec(summary: Option<Seq<char>>, filename: Option<Seq<char>>, recv_id: Option<
    Seq<char>,
>) -> Seq<char> {
    let kind_caption: (Seq<char>, Option<Seq<char>>) = match trimmed_nonempty(summary) {
        Some(s) => if bracketed(s) {
            let k = trim_spec(strip_brackets_spec(s));
            (if k.len() == 0 { "图片"@ } else { k }, None)
        } else {
            ("图片"@, Some(truncate_spec(s, 16)))
        },
        None => ("图片"@, None),
    };
    "["@ + kind_caption.0 + match kind_caption.1 {
        Some(c) => " "@ + c,
        None => Seq::empty(),
    } + match media_file_name_spec(filename, recv_id) {
        Some(n) => " "@ + n,
        None => Seq::empty(),
    } + "]"@
}

fn image_label(summary: &Option<String>, filename: &Option<String>, recv_id: &Option<String>) -> (r: String)
    ensures
        r@ == image_label_spec(opt_view(*summary), opt_view(*filename), opt_view(*recv_id)),
{
    let s = trimmed_text(summary);
    let mut out = String::from_str("[");
    let ghost head = out@;
    let caption: Option<String> = match &s {
        Some(t) => if is_bracketed(t.as_str()) {
            let k0 = strip_brackets(t.as_str());
            let k = trim(k0.as_str());
            if k.as_str().unicode_len() == 0 {
                out.append("图片");
            } else {
                out.append(k.as_str());
            }
            None
        } else {
            out.append("图片");
            Some(truncate_preview(t.as_str(), 16))
        },
        None => {
            out.append("图片");
            None
        },
    };
    let ghost after_kind = out@;
    if let Some(c) = &caption {
        out.append(" ");
        out.append(c.as_str());
    }
    let ghost after_caption = out@;
    let name = media_file_name(filename, recv_id);
    if let Some(n) = &name {
        out.append(" ");
        out.append(n.as_str());
    }
    out.append("]");
    proof {
        let spec_kc: (Seq<char>, Option<Seq<char>>) = match trimmed_nonempty(opt_view(*summary)) {
            Some(x) => if bracketed(x) {
                let k = trim_spec(strip_brackets_spec(x));
                (if k.len() == 0 { "图片"@ } else { k }, None)
            } else {
                ("图片"@, Some(truncate_spec(x, 16)))
            },
            None => ("图片"@, None),
        };
        assert(after_kind == "["@ + spec_kc.0);
        assert(opt_view(caption) == spec_kc.1);
        let cap_part = match spec_kc.1 {
            Some(c) => " "@ + c,
            None => Seq::<char>::empty(),
        };
        assert(after_caption =~= "["@ + spec_kc.0 + cap_part);
        let name_part = match media_file_name_spec(opt_view(*filename), opt_view(*recv_id)) {
            Some(n) => " "@ + n,
            None => Seq::<char>::empty(),
        };
        assert(out@ =~= "["@ + spec_kc.0 + cap_part + name_part + "]"@);
    }
    out
}

/// A person as a mention: `@` and the cached name in the current context
/// (clipped), else the trimmed name the segment carries (clipped), else the number.
pub open spec fn mention_label_spec(opts: RenderOpts, user: Uin, name: Option<Seq<char>>) -> Seq<char> {
    match resolve_user_spec(opts, user.0) {
        Some(c) => "@"@ + truncate_spec(c, NAME_MAX_CHARS as nat),
        None => match trimmed_nonempty(name) {
            Some(n) => "@"@ + truncate_spec(n, NAME_MAX_CHARS as nat),
            None => "@"@ + decimal(user.0 as int),
        },
    }
}

/// The sender of the replied-to message: the segment's own, else the cached
/// message's sender.
pub open spec fn reply_target_spec(opts: RenderOpts, id: MessageId, sender: Option<Uin>) -> Option<i64> {
    match sender {
        Some(u) => Some(u.0),
        None => match opts.messages {
            Some(store) => match entry_for(store.entries_spec(), MsgKey::of_spec(id)) {
                Some(e) => Some(e.0.0),
                None => None,
            },
            None => None,
        },
    }
}

/// The label of a reply: `[回复 @who #ref]`, each part where known.
pub open spec fn reply_label_spec(opts: RenderOpts, id: MessageId, sender: Option<Uin>) -> Seq<char> {
    "[回复"@ + match reply_target_spec(opts, id, sender) {
        Some(uin) => " @"@ + match resolve_user_spec(opts, uin) {
            Some(n) => truncate_spec(n, NAME_MAX_CHARS as nat),
            None => decimal(uin as int),
        },
        None => Seq::empty(),
    } + match msg_ref_spec(id) {
        Some(r) => " #"@ + r,
        None => Seq::empty(),
    } + "]"@
}

/// The sticker's name: the canonical `package·sticker` name from the cache,
/// else its summary without brackets (when that leaves something).
pub open spec fn market_face_name_spec(opts: RenderOpts, package_id: i32, emoji_id: Seq<char>, summary: Option<
    Seq<char>,
>) -> Option<Seq<char>> {
    let cached = match opts.names {
        Some(n) => face_display_spec(n@, package_id, emoji_id),
        None => None,
    };
    match cached {
        Some(c) => Some(c),
        None => match summary {
            Some(s) => if trim_spec(strip_brackets_spec(s)).len() > 0 {
                Some(trim_spec(strip_brackets_spec(s)))
            } else {
                None
            },
            None => None,
        },
    }
}

/// One segment as shown in a line: text as is, everything else as a coloured
/// `[…]` placeholder.
pub open spec fn segment_spec(seg: Segment, opts: RenderOpts) -> Seq<char> {
    let s = opts.style;
    match seg {
        Segment::Text(t) => t@,
        Segment::Mention { user, name } => paint_spec(s, "36"@, mention_label_spec(opts, user, opt_view(name))),
        Segment::MentionAll => paint_spec(s, "36"@, "@全体成员"@),
        Segment::Face { id } => paint_spec(
            s,
            "33"@,
            if trim_spec(id@).len() == 0 {
                "[表情]"@
            } else {
                "[表情 "@ + trim_spec(id@) + "]"@
            },
        ),
        Segment::Reply { id, sender } => paint_spec(s, "90"@, reply_label_spec(opts, id, sender)),
        Segment::Image { summary, filename, recv_id } => paint_spec(
            s,
            "35"@,
            image_label_spec(opt_view(summary), opt_view(filename), opt_view(recv_id)),
        ),
        Segment::Record => paint_spec(s, "35"@, "[语音]"@),
        Segment::Video => paint_spec(s, "35"@, "[视频]"@),
        Segment::File { name } => paint_spec(s, "35"@, "[文件 "@ + name@ + "]"@),
        Segment::Forward => paint_spec(s, "34"@, "[合并转发]"@),
        Segment::MarketFace { package_id, emoji_id, summary } => paint_spec(
            s,
            "33"@,
            match market_face_name_spec(opts, package_id, emoji_id@, opt_view(summary)) {
                Some(n) => "[商城表情 "@ + n + "]"@,
                None => "[商城表情]"@,
            },
        ),
        Segment::LightApp => paint_spec(s, "90"@, "[小程序]"@),
        Segment::Xml => paint_spec(s, "90"@, "[XML卡片]"@),
        Segment::Poke => paint_spec(s, "33"@, "[戳一戳]"@),
        Segment::Contact { kind, id } => paint_spec(
            s,
            "34"@,
            match kind {
                ContactKind::Friend => "[推荐好友 "@ + decimal(id.0 as int) + "]"@,
                ContactKind::Group => "[推荐群 "@ + decimal(id.0 as int) + "]"@,
            },
        ),
        Segment::Location { title } => paint_spec(
            s,
            "34"@,
            match title {
                Some(t) => if trim_spec(t@).len() > 0 {
                    "[位置 "@ + t@ + "]"@
                } else {
                    "[位置]"@
                },
                None => "[位置]"@,
            },
        ),
        Segment::MusicPlatform { ty } => paint_spec(s, "34"@, "[音乐分享 "@ + ty@ + "]"@),
        Segment::MusicCustom { title } => paint_spec(s, "34"@, "[音乐分享 "@ + title@ + "]"@),
        Segment::Share { title } => paint_spec(s, "34"@, "[链接 "@ + title@ + "]"@),
        Segment::Rps => paint_spec(s, "33"@, "[猜拳]"@),
        Segment::Dice => paint_spec(s, "33"@, "[骰子]"@),
        Segment::Shake => paint_spec(s, "33"@, "[窗口抖动]"@),
        Segment::Anonymous => paint_spec(s, "90"@, "[匿名]"@),
        Segment::Keyboard => paint_spec(s, "90"@, "[键盘]"@),
        Segment::Markdown => paint_spec(s, "90"@, "[Markdown]"@),
        Segment::LongMsg => paint_spec(s, "90"@, "[长消息]"@),
        Segment::FlashFile => paint_spec(s, "35"@, "[闪传]"@),
        Segment::FlashTransfer => paint_spec(s, "35"@, "[闪传]"@),
        Segment::MiniApp => paint_spec(s, "90"@, "[小程序]"@),
        Segment::OnlineFile { file_name } => paint_spec(s, "35"@, "[在线文件 "@ + file_name@ + "]"@),
        Segment::Raw { kind } => paint_spec(s, "90"@, "["@ + kind@ + "]"@),
        Segment::Unrecognized => paint_spec(s, "90"@, "[未知段]"@),
    }
}

fn mention_label(opts: &RenderOpts, user: Uin, name: &Option<String>) -> (r: String)
    ensures
        r@ == mention_label_spec(*opts, user, opt_view(*name)),
{
    let mut out = String::from_str("@");
    match resolve_user(user.0, opts) {
        Some(c) => {
            let n = clip_name(c.as_str());
            out.append(n.as_str());
        },
        None => match trimmed_text(name) {
            Some(n) => {
                let m = clip_name(n.as_str());
                out.append(m.as_str());
            },
            None => {
                push_decimal(&mut out, user.0);
            },
        },
    }
    out
}

fn reply_target(opts: &RenderOpts, id: &MessageId, sender: Option<Uin>) -> (r: Option<i64>)
    ensures
        r == reply_target_spec(*opts, *id, sender),
{
    match sender {
        Some(u) => Some(u.0),
        None => match opts.messages {
            Some(store) => match store.lookup(id) {
                Some(m) => Some(m.sender.0),
                None => None,
            },
            None => None,
        },
    }
}

fn reply_label(opts: &RenderOpts, id: &MessageId, sender: Option<Uin>) -> (r: String)
    ensures
        r@ == reply_label_spec(*opts, *id, sender),
{
    let mut out = String::from_str("[回复");
    let ghost head = out@;
    let target = reply_target(opts, id, sender);
    if let Some(uin) = target {
        out.append(" @");
        match resolve_user(uin, opts) {
            Some(n) => {
                let c = clip_name(n.as_str());
                out.append(c.as_str());
            },
            None => {
                push_decimal(&mut out, uin);
            },
        }
    }
    let ghost mid = out@;
    let ghost who = match reply_target_spec(*opts, *id, sender) {
        Some(uin) => " @"@ + match resolve_user_spec(*opts, uin) {
            Some(n) => truncate_spec(n, NAME_MAX_CHARS as nat),
            None => decimal(uin as int),
        },
        None => Seq::<char>::empty(),
    };
    assert(mid =~= head + who);
    let r = msg_ref(id);
    if let Some(x) = &r {
        out.append(" #");
        out.append(x.as_str());
    }
    out.append("]");
    let ghost refp = match msg_ref_spec(*id) {
        Some(x) => " #"@ + x,
        None => Seq::<char>::empty(),
    };
    assert(out@ =~= head + who + refp + "]"@);
    out
}

fn market_face_name(opts: &RenderOpts, package_id: i32, emoji_id: &String, summary: &Option<String>) -> (r: Option<
    String,
>)
    ensures
        opt_view(r) == market_face_name_spec(*opts, package_id, emoji_id@, opt_view(*summary)),
{
    if let Some(n) = opts.names {
        if let Some(c) = n.market_face_display(package_id, emoji_id.as_str()) {
            return Some(c);
        }
    }
    match summary {
        Some(s) => {
            let b = strip_brackets(s.as_str());
            let t = trim(b.as_str());
            if t.as_str().unicode_len() > 0 {
                Some(t)
            } else {
                None
            }
        },
        None => None,
    }
}

fn bracket_label(head: &str, body: &str) -> (r: String)
    ensures
        r@ == head@ + body@ + "]"@,
{
    let mut out = String::from_str(head);
    out.append(body);
    out.append("]");
    out
}

fn decimal_label(head: &str, v: i64) -> (r: String)
    ensures
        r@ == head@ + decimal(v as int) + "]"@,
{
    let mut out = String::from_str(head);
    push_decimal(&mut out, v);
    out.append("]");
    out
}

/// Renders one segment (see [`segment_spec`]).
pub fn render_segment(seg: &Segment, opts: &RenderOpts) -> (r: String)
    ensures
        r@ == segment_spec(*seg, *opts),
{
    let s = opts.style;
    match seg {
        Segment::Text(t) => t.clone(),
        Segment::Mention { user, name } => {
            let l = mention_label(opts, *user, name);
            s.paint("36", l.as_str())
        },
        Segment::MentionAll => s.paint("36", "@全体成员"),
        Segment::Face { id } => {
            let t = trim(id.as_str());
            if t.as_str().unicode_len() == 0 {
                s.paint("33", "[表情]")
            } else {
                let l = bracket_label("[表情 ", t.as_str());
                s.paint("33", l.as_str())
            }
        },
        Segment::Reply { id, sender } => {
            let l = reply_label(opts, id, *sender);
            s.paint("90", l.as_str())
        },
        Segment::Image { summary, filename, recv_id } => {
            let l = image_label(summary, filename, recv_id);
            s.paint("35", l.as_str())
        },
        Segment::Record => s.paint("35", "[语音]"),
        Segment::Video => s.paint("35", "[视频]"),
        Segment::File { name } => {
            let l = bracket_label("[文件 ", name.as_str());
            s.paint("35", l.as_str())
        },
        Segment::Forward => s.paint("34", "[合并转发]"),
        Segment::MarketFace { package_id, emoji_id, summary } => {
            match market_face_name(opts, *package_id, emoji_id, summary) {
                Some(n) => {
                    let l = bracket_label("[商城表情 ", n.as_str());
                    s.paint("33", l.as_str())
                },
                None => s.paint("33", "[商城表情]"),
            }
        },
        Segment::LightApp => s.paint("90", "[小程序]"),
        Segment::Xml => s.paint("90", "[XML卡片]"),
        Segment::Poke => s.paint("33", "[戳一戳]"),
        Segment::Contact { kind, id } => {
            let l = match kind {
                ContactKind::Friend => decimal_label("[推荐好友 ", id.0),
                ContactKind::Group => decimal_label("[推荐群 ", id.0),
            };
            s.paint("34", l.as_str())
        },
        Segment::Location { title } => {
            match title {
                Some(t) => {
                    let tt = trim(t.as_str());
                    if tt.as_str().unicode_len() > 0 {
                        let l = bracket_label("[位置 ", t.as_str());
                        s.paint("34", l.as_str())
                    } else {
                        s.paint("34", "[位置]")
                    }
                },
                None => s.paint("34", "[位置]"),
            }
        },
        Segment::MusicPlatform { ty } => {
            let l = bracket_label("[音乐分享 ", ty.as_str());
            s.paint("34", l.as_str())
        },
        Segment::MusicCustom { title } => {
            let l = bracket_label("[音乐分享 ", title.as_str());
            s.paint("34", l.as_str())
        },
        Segment::Share { title } => {
            let l = bracket_label("[链接 ", title.as_str());
            s.paint("34", l.as_str())
        },
        Segment::Rps => s.paint("33", "[猜拳]"),
        Segment::Dice => s.paint("33", "[骰子]"),
        Segment::Shake => s.paint("33", "[窗口抖动]"),
        Segment::Anonymous => s.paint("90", "[匿名]"),
        Segment::Keyboard => s.paint("90", "[键盘]"),
        Segment::Markdown => s.paint("90", "[Markdown]"),
        Segment::LongMsg => s.paint("90", "[长消息]"),
        Segment::FlashFile | Segment::FlashTransfer => s.paint("35", "[闪传]"),
        Segment::MiniApp => s.paint("90", "[小程序]"),
        Segment::OnlineFile { file_name } => {
            let l = bracket_label("[在线文件 ", file_name.as_str());
            s.paint("35", l.as_str())
        },
        Segment::Raw { kind } => {
            let l = bracket_label("[", kind.as_str());
            s.paint("90", l.as_str())
        },
        Segment::Unrecognized => s.paint("90", "[未知段]"),
    }
}

/// The trimmed summary of a sticker segment, when it has a non-blank one.
pub open spec fn sticker_caption(seg: Segment) -> Option<Seq<char>> {
    match seg {
        Segment::MarketFace { summary: Some(s), .. } => if trim_spec(s@).len() > 0 {
            Some(trim_spec(s@))
        } else {
            None
        },
        _ => None,
    }
}

/// Segment `i` is the client's fallback text right after a sticker: a text
/// segment whose trimmed text equals the sticker's trimmed summary. It is not
/// shown (the sticker already shows it).
pub open spec fn echo_skipped(segs: Seq<Segment>, i: int) -> bool {
    &&& 0 < i < segs.len()
    &&& sticker_caption(segs[i - 1]) is Some
    &&& segs[i] matches Segment::Text(t) && trim_spec(t@) == sticker_caption(segs[i - 1])->0
}

/// A list of segments on one line: each segment shown in turn, except the
/// fallback texts of stickers.
pub open spec fn segments_spec(segs: Seq<Segment>, opts: RenderOpts) -> Seq<char>
    decreases segs.len(),
{
    if segs.len() == 0 {
        Seq::empty()
    } else {
        segments_spec(segs.drop_last(), opts) + if echo_skipped(segs, segs.len() - 1) {
            Seq::empty()
        } else {
            segment_spec(segs.last(), opts)
        }
    }
}

proof fn lemma_segments_prefix(segs: Seq<Segment>, opts: RenderOpts, i: int)
    requires
        0 <= i < segs.len(),
    ensures
        segments_spec(segs.subrange(0, i + 1), opts) == segments_spec(segs.subrange(0, i), opts) + if echo_skipped(
            segs,
            i,
        ) {
            Seq::empty()
        } else {
            segment_spec(segs[i], opts)
        },
{
    let p = segs.subrange(0, i + 1);
    assert(p.drop_last() =~= segs.subrange(0, i));
    assert(p.last() == segs[i]);
    if i > 0 {
        assert(p[i - 1] == segs[i - 1]);
    }
    assert(echo_skipped(p, i) == echo_skipped(segs, i));
}

fn caption_of(seg: &Segment) -> (r: Option<String>)
    ensures
        opt_view(r) == sticker_caption(*seg),
{
    match seg {
        Segment::MarketFace { summary: Some(s), .. } => {
            let t = trim(s.as_str());
            if t.as_str().unicode_len() > 0 {
                Some(t)
            } else {
                None
            }
        },
        _ => None,
    }
}

/// Renders a list of segments on one line (see [`segments_spec`]).
pub fn render_segments_styled(segs: &[Segment], opts: &RenderOpts) -> (r: String)
    ensures
        r@ == segments_spec(segs@, *opts),
{
    let mut out = String::new();
    let mut prev: Option<String> = None;
    let mut i: usize = 0;
    assert(segs@.subrange(0, 0) =~= Seq::<Segment>::empty());
    while i < segs.len()
        invariant
            i <= segs@.len(),
            out@ == segments_spec(segs@.subrange(0, i as int), *opts),
            opt_view(prev) == if i > 0 {
                sticker_caption(segs@[i - 1])
            } else {
                None
            },
        decreases segs@.len() - i,
    {
        proof {
            lemma_segments_prefix(segs@, *opts, i as int);
        }
        let seg = &segs[i];
        let mut skip = false;
        if let Segment::Text(t) = seg {
            if let Some(c) = &prev {
                let tt = trim(t.as_str());
                if str_eq(c.as_str(), tt.as_str()) {
                    skip = true;
                }
            }
        }
        assert(skip == echo_skipped(segs@, i as int));
        if !skip {
            let piece = render_segment(seg, opts);
            out.append(piece.as_str());
            prev = caption_of(seg);
        } else {
            prev = None;
            assert(sticker_caption(segs@[i as int]) is None);
        }
        i = i + 1;
    }
    assert(segs@.subrange(0, segs@.len() as int) =~= segs@);
    out
}

/// A list of segments as plain text, without name lookups.
pub fn render_segments(segs: &[Segment]) -> (r: String)
    ensures
        r@ == segments_spec(segs@, RenderOpts::plain_spec()),
{
    let opts = RenderOpts::plain();
    render_segments_styled(segs, &opts)
}

/// A lifecycle event's line (all dim).
pub open spec fn meta_spec(meta: Meta, opts: RenderOpts) -> Seq<char> {
    paint_spec(
        opts.style,
        "90"@,
        match meta {
            Meta::Connect => "[元] 协议端连接"@,
            Meta::Disconnect { reason } => match reason {
                Some(r) => if trim_spec(r@).len() > 0 {
                    "[元] 协议端断开（"@ + r@ + "）"@
                } else {
                    "[元] 协议端断开"@
                },
                None => "[元] 协议端断开"@,
            },
            Meta::Ready { self_id, nickname } => "[元] 就绪（账号 "@ + if trim_spec(nickname@).len() == 0 {
                decimal(self_id.0 as int)
            } else {
                truncate_spec(trim_spec(nickname@), NAME_MAX_CHARS as nat) + "("@ + decimal(self_id.0 as int)
                    + ")"@
            } + "）"@,
            Meta::Heartbeat { interval, .. } => "[元] 心跳 "@ + decimal(interval as int) + "ms"@,
            Meta::BotOnline { reason } => match reason {
                Some(r) => if trim_spec(r@).len() > 0 {
                    "[元] 账号上线（"@ + r@ + "）"@
                } else {
                    "[元] 账号上线"@
                },
                None => "[元] 账号上线"@,
            },
            Meta::BotOffline => "[元] 账号下线"@,
            Meta::Unrecognized => "[元]"@,
        },
    )
}

fn wrap_label(head: &str, body: &str, tail: &str) -> (r: String)
    ensures
        r@ == head@ + body@ + tail@,
{
    let mut out = String::from_str(head);
    out.append(body);
    out.append(tail);
    out
}

/// Renders a lifecycle event (see [`meta_spec`]).
pub fn render_meta(meta: &Meta, opts: &RenderOpts) -> (r: String)
    ensures
        r@ == meta_spec(*meta, *opts),
{
    let s = opts.style;
    match meta {
        Meta::Connect => s.paint("90", "[元] 协议端连接"),
        Meta::Disconnect { reason } => {
            if let Some(r) = reason {
                let t = trim(r.as_str());
                if t.as_str().unicode_len() > 0 {
                    let l = wrap_label("[元] 协议端断开（", r.as_str(), "）");
                    return s.paint("90", l.as_str());
                }
            }
            s.paint("90", "[元] 协议端断开")
        },
        Meta::Ready { self_id, nickname } => {
            let t = trim(nickname.as_str());
            let mut l = String::from_str("[元] 就绪（账号 ");
            let ghost head = l@;
            if t.as_str().unicode_len() == 0 {
                push_decimal(&mut l, self_id.0);
            } else {
                let c = clip_name(t.as_str());
                l.append(c.as_str());
                l.append("(");
                push_decimal(&mut l, self_id.0);
                l.append(")");
            }
            l.append("）");
            let ghost acct = if trim_spec(nickname@).len() == 0 {
                decimal(self_id.0 as int)
            } else {
                truncate_spec(trim_spec(nickname@), NAME_MAX_CHARS as nat) + "("@ + decimal(self_id.0 as int)
                    + ")"@
            };
            assert(l@ =~= head + acct + "）"@);
            s.paint("90", l.as_str())
        },
        Meta::Heartbeat { interval, .. } => {
            let mut l = String::from_str("[元] 心跳 ");
            push_decimal(&mut l, *interval);
            l.append("ms");
            s.paint("90", l.as_str())
        },
        Meta::BotOnline { reason } => {
            if let Some(r) = reason {
                let t = trim(r.as_str());
                if t.as_str().unicode_len() > 0 {
                    let l = wrap_label("[元] 账号上线（", r.as_str(), "）");
                    return s.paint("90", l.as_str());
                }
            }
            s.paint("90", "[元] 账号上线")
        },
        Meta::BotOffline => s.paint("90", "[元] 账号下线"),
        Meta::Unrecognized => s.paint("90", "[元]"),
    }
}

/// The shown outcome of a request, where it is settled.
pub open spec fn request_state_tag_spec(state: RequestState) -> Option<Seq<char>> {
    match state {
        RequestState::Accepted => Some("已同意"@),
        RequestState::Rejected => Some("已拒绝"@),
        RequestState::Ignored => Some("已忽略"@),
        _ => None,
    }
}

fn request_state_tag(state: RequestState) -> (r: Option<&'static str>)
    ensures
        match r {
            Some(x) => request_state_tag_spec(state) == Some(x@),
            None => request_state_tag_spec(state) is None,
        },
{
    match state {
        RequestState::Accepted => Some("已同意"),
        RequestState::Rejected => Some("已拒绝"),
        RequestState::Ignored => Some("已忽略"),
        _ => None,
    }
}

/// A person's label in the current context (see [`label_spec`]).
pub open spec fn user_spec(opts: RenderOpts, uin: Uin) -> Seq<char> {
    label_spec(resolve_user_spec(opts, uin.0), uin.0)
}

/// A group's label (see [`label_spec`]).
pub open spec fn group_spec(opts: RenderOpts, gid: Uin) -> Seq<char> {
    label_spec(group_name_spec(opts, gid.0), gid.0)
}

/// A request's line: a bold yellow tag, who asks, for what, and the comment.
pub open spec fn request_spec(r: Request, opts: RenderOpts) -> Seq<char> {
    let tag = |t: Seq<char>| paint_spec(opts.style, "1;33"@, t);
    match r {
        Request::Friend { initiator, comment, state, .. } => tag("[好友请求]"@) + " "@ + user_spec(opts, initiator)
            + ": "@ + comment@ + match request_state_tag_spec(state) {
            Some(x) => "（"@ + x + "）"@,
            None => Seq::empty(),
        },
        Request::GroupJoin { group, initiator, comment, invitor, .. } => tag("[加群请求]"@) + " "@ + user_spec(
            opts,
            initiator,
        ) + " → 群 "@ + group_spec(opts, group) + ": "@ + comment@ + match invitor {
            Some(inv) => "（邀请人 "@ + user_spec(opts, inv) + "）"@,
            None => Seq::empty(),
        },
        Request::GroupInvitedJoin { group, initiator, target } => tag("[他人入群邀请]"@) + " "@ + user_spec(
            opts,
            initiator,
        ) + " 邀请 "@ + user_spec(opts, target) + " 加入群 "@ + group_spec(opts, group),
        Request::GroupInvite { group, initiator, comment } => tag("[入群邀请]"@) + " "@ + user_spec(opts, initiator)
            + " 邀请你加入群 "@ + group_spec(opts, group) + ": "@ + comment@,
        Request::Unrecognized => tag("[请求]"@),
    }
}

/// Renders a request (see [`request_spec`]).
pub fn render_request(r: &Request, opts: &RenderOpts) -> (out: String)
    ensures
        out@ == request_spec(*r, *opts),
{
    let s = opts.style;
    match r {
        Request::Friend { initiator, comment, state, .. } => {
            let mut out = s.paint("1;33", "[好友请求]");
            out.append(" ");
            let u = user_label(initiator.0, opts);
            out.append(u.as_str());
            out.append(": ");
            out.append(comment.as_str());
            let ghost before = out@;
            if let Some(x) = request_state_tag(*state) {
                out.append("（");
                out.append(x);
                out.append("）");
            }
            let ghost tail = match request_state_tag_spec(*state) {
                Some(x) => "（"@ + x + "）"@,
                None => Seq::<char>::empty(),
            };
            assert(out@ =~= before + tail);
            out
        },
        Request::GroupJoin { group, initiator, comment, invitor, .. } => {
            let mut out = s.paint("1;33", "[加群请求]");
            out.append(" ");
            let u = user_label(initiator.0, opts);
            out.append(u.as_str());
            out.append(" → 群 ");
            let g = group_label(group.0, opts);
            out.append(g.as_str());
            out.append(": ");
            out.append(comment.as_str());
            let ghost before = out@;
            if let Some(inv) = invitor {
                out.append("（邀请人 ");
                let v = user_label(inv.0, opts);
                out.append(v.as_str());
                out.append("）");
            }
            let ghost tail = match *invitor {
                Some(inv) => "（邀请人 "@ + user_spec(*opts, inv) + "）"@,
                None => Seq::<char>::empty(),
            };
            assert(out@ =~= before + tail);
            out
        },
        Request::GroupInvitedJoin { group, initiator, target } => {
            let mut out = s.paint("1;33", "[他人入群邀请]");
            out.append(" ");
            let u = user_label(initiator.0, opts);
            out.append(u.as_str());
            out.append(" 邀请 ");
            let v = user_label(target.0, opts);
            out.append(v.as_str());
            out.append(" 加入群 ");
            let g = group_label(group.0, opts);
            out.append(g.as_str());
            out
        },
        Request::GroupInvite { group, initiator, comment } => {
            let mut out = s.paint("1;33", "[入群邀请]");
            out.append(" ");
            let u = user_label(initiator.0, opts);
            out.append(u.as_str());
            out.append(" 邀请你加入群 ");
            let g = group_label(group.0, opts);
            out.append(g.as_str());
            out.append(": ");
            out.append(comment.as_str());
            out
        },
        Request::Unrecognized => s.paint("1;33", "[请求]"),
    }
}

/// The tag of a conversation: `[群 group]` in blue, `[私聊]` or `[临时 id]` in magenta.
pub open spec fn scene_prefix_spec(peer: Peer, opts: RenderOpts) -> Seq<char> {
    match peer.scene {
        Scene::Group => paint_spec(opts.style, "34"@, "[群 "@ + group_spec(opts, peer.id) + "]"@),
        Scene::Friend => paint_spec(opts.style, "35"@, "[私聊]"@),
        Scene::Temp => paint_spec(opts.style, "35"@, "[临时 "@ + decimal(peer.id.0 as int) + "]"@),
    }
}

fn scene_prefix(peer: Peer, opts: &RenderOpts) -> (r: String)
    ensures
        r@ == scene_prefix_spec(peer, *opts),
{
    match peer.scene {
        Scene::Group => {
            let g = group_label(peer.id.0, opts);
            let l = bracket_label("[群 ", g.as_str());
            opts.style.paint("34", l.as_str())
        },
        Scene::Friend => opts.style.paint("35", "[私聊]"),
        Scene::Temp => {
            let l = decimal_label("[临时 ", peer.id.0);
            opts.style.paint("35", l.as_str())
        },
    }
}

/// A non-empty text.
pub open spec fn non_empty_text(o: Option<Seq<char>>) -> Option<Seq<char>> {
    match o {
        Some(s) => if s.len() > 0 {
            Some(s)
        } else {
            None
        },
        None => None,
    }
}

/// The name shown for a sender: the group display name, else the friend
/// display name (each when non-empty), else the cached name.
pub open spec fn sender_name_spec(opts: RenderOpts, sender: Uin, member_name: Option<Seq<char>>, friend_name: Option<
    Seq<char>,
>) -> Option<Seq<char>> {
    match non_empty_text(member_name) {
        Some(n) => Some(n),
        None => match non_empty_text(friend_name) {
            Some(f) => Some(f),
            None => resolve_user_spec(opts, sender.0),
        },
    }
}

/// A sender: the clipped name in bold and `(number)` dim, or the dim number.
pub open spec fn sender_spec(opts: RenderOpts, sender: Uin, member_name: Option<Seq<char>>, friend_name: Option<
    Seq<char>,
>) -> Seq<char> {
    match sender_name_spec(opts, sender, member_name, friend_name) {
        Some(n) => paint_spec(opts.style, "1"@, truncate_spec(n, NAME_MAX_CHARS as nat)) + paint_spec(
            opts.style,
            "90"@,
            "("@ + decimal(sender.0 as int) + ")"@,
        ),
        None => paint_spec(opts.style, "90"@, decimal(sender.0 as int)),
    }
}

fn non_empty_opt(o: &Option<String>) -> (r: Option<String>)
    ensures
        opt_view(r) == non_empty_text(opt_view(*o)),
{
    match o {
        Some(s) => if s.as_str().unicode_len() > 0 {
            Some(s.clone())
        } else {
            None
        },
        None => None,
    }
}

fn render_sender(opts: &RenderOpts, sender: Uin, member_name: &Option<String>, friend_name: &Option<String>) -> (r:
    String)
    ensures
        r@ == sender_spec(*opts, sender, opt_view(*member_name), opt_view(*friend_name)),
{
    let name = match non_empty_opt(member_name) {
        Some(n) => Some(n),
        None => match non_empty_opt(friend_name) {
            Some(f) => Some(f),
            None => resolve_user(sender.0, opts),
        },
    };
    assert(opt_view(name) == sender_name_spec(*opts, sender, opt_view(*member_name), opt_view(*friend_name)));
    match name {
        Some(n) => {
            let c = clip_name(n.as_str());
            let mut out = opts.style.paint("1", c.as_str());
            let mut id = String::from_str("(");
            push_decimal(&mut id, sender.0);
            id.append(")");
            let p = opts.style.paint("90", id.as_str());
            out.append(p.as_str());
            out
        },
        None => {
            let mut id = String::new();
            push_decimal(&mut id, sender.0);
            assert(id@ =~= decimal(sender.0 as int));
            opts.style.paint("90", id.as_str())
        },
    }
}

/// The head and body of a message line joined: `head #ref: body` with the
/// reference dim, or `head: body` without one.
pub open spec fn with_ref_spec(opts: RenderOpts, head: Seq<char>, id: MessageId, body: Seq<char>) -> Seq<char> {
    match msg_ref_spec(id) {
        Some(r) => head + " "@ + paint_spec(opts.style, "90"@, "#"@ + r) + ": "@ + body,
        None => head + ": "@ + body,
    }
}

fn with_ref(opts: &RenderOpts, head: String, id: &MessageId, body: &str) -> (r: String)
    ensures
        r@ == with_ref_spec(*opts, head@, *id, body@),
{
    let mut out = head;
    match msg_ref(id) {
        Some(x) => {
            let mut l = String::from_str("#");
            l.append(x.as_str());
            let p = opts.style.paint("90", l.as_str());
            out.append(" ");
            out.append(p.as_str());
        },
        None => {},
    }
    out.append(": ");
    out.append(body);
    out
}

/// Where an outgoing message went: `群 group`, `私聊 person` or `临时 id`.
pub open spec fn destination_spec(peer: Peer, opts: RenderOpts) -> Seq<char> {
    match peer.scene {
        Scene::Group => "群 "@ + group_spec(opts, peer.id),
        Scene::Friend => "私聊 "@ + user_spec(opts, peer.id),
        Scene::Temp => "临时 "@ + decimal(peer.id.0 as int),
    }
}

/// A message's line. Incoming: conversation tag, sender, reference, content.
/// The bot's own: a bold green `[发送]`, the destination, reference, content.
pub open spec fn message_spec(m: MessageEvent, opts: RenderOpts) -> Seq<char> {
    let body = segments_spec(m.content@, opts);
    if m.is_self {
        with_ref_spec(opts, paint_spec(opts.style, "1;32"@, "[发送]"@) + " "@ + destination_spec(m.peer, opts), m.id, body)
    } else {
        with_ref_spec(
            opts,
            scene_prefix_spec(m.peer, opts) + " "@ + sender_spec(opts, m.sender, opt_view(m.member_name), opt_view(m.friend_name)),
            m.id,
            body,
        )
    }
}

/// Renders a message event (see [`message_spec`]).
pub fn render_message(m: &MessageEvent, opts: &RenderOpts) -> (r: String)
    ensures
        r@ == message_spec(*m, *opts),
{
    let body = render_segments_styled(m.content.as_slice(), opts);
    if m.is_self {
        let mut head = opts.style.paint("1;32", "[发送]");
        head.append(" ");
        match m.peer.scene {
            Scene::Group => {
                head.append("群 ");
                let g = group_label(m.peer.id.0, opts);
                head.append(g.as_str());
            },
            Scene::Friend => {
                head.append("私聊 ");
                let u = user_label(m.peer.id.0, opts);
                head.append(u.as_str());
            },
            Scene::Temp => {
                head.append("临时 ");
                push_decimal(&mut head, m.peer.id.0);
            },
        }
        with_ref(opts, head, &m.id, body.as_str())
    } else {
        let mut head = scene_prefix(m.peer, opts);
        head.append(" ");
        let s = render_sender(opts, m.sender, &m.member_name, &m.friend_name);
        head.append(s.as_str());
        with_ref(opts, head, &m.id, body.as_str())
    }
}

/// The options with plain style (for previews).
pub open spec fn plain_of<'a>(opts: RenderOpts<'a>) -> RenderOpts<'a> {
    RenderOpts { style: Style::Plain, names: opts.names, group: opts.group, messages: opts.messages }
}

/// The plain, trimmed content of a cached message, if it is still cached.
pub open spec fn recall_preview_spec(opts: RenderOpts, id: MessageId) -> Option<Seq<char>> {
    match opts.messages {
        Some(store) => match entry_for(store.entries_spec(), MsgKey::of_spec(id)) {
            Some(e) => Some(trim_spec(segments_spec(e.1@, plain_of(opts)))),
            None => None,
        },
        None => None,
    }
}

/// A notice tag, in yellow.
pub open spec fn ntag(opts: RenderOpts, t: Seq<char>) -> Seq<char> {
    paint_spec(opts.style, "33"@, t)
}

/// How a member left.
pub open spec fn leave_how(reason: MemberDecreaseReason) -> Seq<char> {
    match reason {
        MemberDecreaseReason::Leave => "退出"@,
        MemberDecreaseReason::Kick => "被踢出"@,
        MemberDecreaseReason::KickMe => "被踢出"@,
        MemberDecreaseReason::Disband => "因群解散离开"@,
        MemberDecreaseReason::Unknown => "离开"@,
    }
}

/// The name of an honour.
pub open spec fn honor_name(h: HonorKind) -> Seq<char> {
    match h {
        HonorKind::Talkative => "龙王"@,
        HonorKind::Performer => "群聊之火"@,
        HonorKind::Emotion => "快乐源泉"@,
        HonorKind::Unknown => "荣誉"@,
    }
}

/// The word for a flash-transfer phase.
pub open spec fn flash_phase(p: FlashFilePhase) -> Seq<char> {
    match p {
        FlashFilePhase::Downloading => "下载中"@,
        FlashFilePhase::Downloaded => "下载完成"@,
        FlashFilePhase::Uploading => "上传中"@,
        FlashFilePhase::Uploaded => "上传完成"@,
        FlashFilePhase::Unknown => "进行中"@,
    }
}

/// The recall line: the recalled message's reference, who recalled whose
/// message, and a preview of its content when it is still cached.
pub open spec fn recall_spec(opts: RenderOpts, id: MessageId, sender: Uin, operator: Uin) -> Seq<char> {
    let label = match msg_ref_spec(id) {
        Some(r) => "[撤回 #"@ + r + "]"@,
        None => "[撤回]"@,
    };
    let base = if sender == operator {
        ntag(opts, label) + " "@ + user_spec(opts, sender) + " 撤回了一条消息"@
    } else {
        ntag(opts, label) + " "@ + user_spec(opts, operator) + " 撤回了 "@ + user_spec(opts, sender) + " 的一条消息"@
    };
    match recall_preview_spec(opts, id) {
        Some(p) => if p.len() == 0 {
            base
        } else {
            base + ": "@ + truncate_spec(p, 30)
        },
        None => base,
    }
}

/// An optional group as ` 群 group` (with its leading space), or nothing.
pub open spec fn in_group_spec(opts: RenderOpts, group: Option<Uin>) -> Seq<char> {
    match group {
        Some(g) => " 群 "@ + group_spec(opts, g),
        None => Seq::empty(),
    }
}

/// A notice's line: a yellow tag and what happened, naming people and groups.
pub open spec fn notice_spec(n: Notice, opts: RenderOpts) -> Seq<char> {
    let u = |x: Uin| user_spec(opts, x);
    let g = |x: Uin| group_spec(opts, x);
    match n {
        Notice::Recall { id, sender, operator, .. } => recall_spec(opts, id, sender, operator),
        Notice::MemberIncrease { group, user, operator, invitor } => ntag(opts, "[进群]"@) + " "@ + u(user)
            + " 加入群 "@ + g(group) + match invitor {
            Some(inv) => "（"@ + u(inv) + " 邀请）"@,
            None => match operator {
                Some(op) => "（"@ + u(op) + " 操作）"@,
                None => Seq::empty(),
            },
        },
        Notice::MemberDecrease { group, user, operator, reason } => match operator {
            Some(op) => if reason == MemberDecreaseReason::Kick || reason == MemberDecreaseReason::KickMe {
                ntag(opts, "[退群]"@) + " "@ + u(op) + " 将 "@ + u(user) + " "@ + leave_how(reason) + "群 "@ + g(group)
            } else {
                ntag(opts, "[退群]"@) + " "@ + u(user) + " "@ + leave_how(reason) + "群 "@ + g(group)
            },
            None => ntag(opts, "[退群]"@) + " "@ + u(user) + " "@ + leave_how(reason) + "群 "@ + g(group),
        },
        Notice::AdminChange { group, user, is_set, .. } => ntag(opts, "[管理变更]"@) + " "@ + u(user) + " 在群 "@
            + g(group) + " "@ + (if is_set { "被设为"@ } else { "被取消"@ }) + "管理员"@,
        Notice::Mute { group, user, operator, duration } => ntag(opts, "[禁言]"@) + " "@ + u(operator) + " 禁言 "@
            + u(user) + " "@ + decimal(duration as int) + "s（群 "@ + g(group) + "）"@,
        Notice::WholeMute { group, operator, is_mute } => ntag(opts, "[全员禁言]"@) + " "@ + u(operator) + " "@
            + (if is_mute { "开启"@ } else { "关闭"@ }) + "群 "@ + g(group) + " 全员禁言"@,
        Notice::GroupNameChange { group, new_name, operator } => ntag(opts, "[群名变更]"@) + " "@ + u(operator)
            + " 把群 "@ + g(group) + " 改名为 "@ + new_name@,
        Notice::LuckyKing { group, user, target } => ntag(opts, "[运气王]"@) + " 群 "@ + g(group) + " "@ + u(user)
            + " 的红包，运气王是 "@ + u(target),
        Notice::Honor { group, user, honor } => ntag(opts, "[荣誉]"@) + " 群 "@ + g(group) + " "@ + u(user) + " 获得 "@
            + honor_name(honor),
        Notice::GroupCardChange { group, user, new_card, .. } => ntag(opts, "[名片变更]"@) + " 群 "@ + g(group) + " "@
            + u(user) + " 改名片为 "@ + new_card@,
        Notice::FriendNudge { user, display, .. } => ntag(opts, "[戳一戳]"@) + " "@ + u(user) + " "@ + display.action@
            + "你"@ + display.suffix@,
        Notice::GroupNudge { group, sender, receiver, display } => ntag(opts, "[戳一戳]"@) + " 群 "@ + g(group) + " "@
            + u(sender) + " "@ + display.action@ + "了 "@ + u(receiver) + display.suffix@,
        Notice::Reaction { group, user, face_id, is_add } => ntag(opts, "[表情回应]"@) + " 群 "@ + g(group) + " "@
            + u(user) + " "@ + (if is_add { "回应"@ } else { "取消回应"@ }) + " "@ + face_id@,
        Notice::EssenceChange { group, sender, is_set } => ntag(opts, "[精华]"@) + " 群 "@ + g(group) + " "@ + (if is_set {
            "设为"@
        } else {
            "取消"@
        }) + match sender {
            Some(s) => "精华（作者 "@ + u(s) + "）"@,
            None => "精华"@,
        },
        Notice::GroupFileUpload { group, user, file_name } => ntag(opts, "[群文件]"@) + " 群 "@ + g(group) + " "@
            + u(user) + " 上传 "@ + file_name@,
        Notice::FriendFileUpload { user, file_name } => ntag(opts, "[私聊文件]"@) + " "@ + u(user) + " 发送 "@
            + file_name@,
        Notice::FriendAdd { user } => ntag(opts, "[好友添加]"@) + " 已添加好友 "@ + u(user),
        Notice::PeerPinChange { peer, is_pinned } => ntag(opts, "[置顶变更]"@) + " "@ + scene_prefix_spec(peer, opts)
            + (if is_pinned { "置顶"@ } else { "取消置顶"@ }),
        Notice::BotOffline { reason } => ntag(opts, "[下线]"@) + " "@ + reason@,
        Notice::GroupDismiss { group, operator } => ntag(opts, "[群解散]"@) + " "@ + u(operator) + " 解散了群 "@
            + g(group),
        Notice::GroupTitleChange { group, user, title } => ntag(opts, "[头衔变更]"@) + " 群 "@ + g(group) + " "@
            + u(user) + " 头衔变为 "@ + title@,
        Notice::InputStatus { user, group, status_text } => ntag(opts, "[输入状态]"@) + in_group_spec(opts, group)
            + " "@ + u(user) + " "@ + status_text@,
        Notice::ProfileLike { operator, operator_nick, times } => ntag(opts, "[资料点赞]"@) + " "@ + (if trim_spec(
            operator_nick@,
        ).len() == 0 {
            u(operator)
        } else {
            truncate_spec(trim_spec(operator_nick@), NAME_MAX_CHARS as nat) + "("@ + decimal(operator.0 as int)
                + ")"@
        }) + " 点赞 "@ + decimal(times as int) + " 次"@,
        Notice::GrayTip { group, content } => ntag(opts, "[灰字提示]"@) + in_group_spec(opts, group) + " "@
            + content@,
        Notice::PokeRecall { group, user } => ntag(opts, "[戳一戳撤回]"@) + in_group_spec(opts, group) + " "@ + u(user)
            + " 撤回了戳一戳"@,
        Notice::OnlineFile { direction, user, group } => ntag(opts, "[在线文件]"@) + in_group_spec(opts, group) + " "@
            + u(user) + " "@ + (if direction == OnlineFileDirection::Send { "发送"@ } else { "接收"@ })
            + "在线文件"@,
        Notice::FlashFile { phase, user, group } => ntag(opts, "[闪传]"@) + in_group_spec(opts, group) + " "@ + u(
            user,
        ) + " 闪传"@ + flash_phase(phase),
        Notice::Other { protocol, kind } => ntag(opts, "[通知]"@) + " "@ + protocol@ + " "@ + kind@,
        Notice::Unrecognized => ntag(opts, "[通知]"@),
    }
}

fn push_user(out: &mut String, opts: &RenderOpts, uin: Uin)
    ensures
        final(out)@ == old(out)@ + user_spec(*opts, uin),
{
    let l = user_label(uin.0, opts);
    out.append(l.as_str());
}

fn push_group(out: &mut String, opts: &RenderOpts, gid: Uin)
    ensures
        final(out)@ == old(out)@ + group_spec(*opts, gid),
{
    let l = group_label(gid.0, opts);
    out.append(l.as_str());
}

fn push_in_group(out: &mut String, opts: &RenderOpts, group: Option<Uin>)
    ensures
        final(out)@ == old(out)@ + in_group_spec(*opts, group),
{
    match group {
        Some(g) => {
            out.append(" 群 ");
            push_group(out, opts, g);
            assert(final(out)@ =~= old(out)@ + in_group_spec(*opts, group));
        },
        None => {
            assert(old(out)@ + in_group_spec(*opts, group) =~= old(out)@);
        },
    }
}

fn recall_preview(opts: &RenderOpts, id: &MessageId) -> (r: Option<String>)
    ensures
        opt_view(r) == recall_preview_spec(*opts, *id),
{
    match opts.messages {
        Some(store) => match store.lookup(id) {
            Some(msg) => {
                let popts = RenderOpts { style: Style::Plain, names: opts.names, group: opts.group, messages: opts.messages };
                let pv = render_segments_styled(msg.content.as_slice(), &popts);
                Some(trim(pv.as_str()))
            },
            None => None,
        },
        None => None,
    }
}

fn render_recall(opts: &RenderOpts, id: &MessageId, sender: Uin, operator: Uin) -> (r: String)
    ensures
        r@ == recall_spec(*opts, *id, sender, operator),
{
    let label = match msg_ref(id) {
        Some(x) => bracket_label("[撤回 #", x.as_str()),
        None => String::from_str("[撤回]"),
    };
    let mut base = opts.style.paint("33", label.as_str());
    base.append(" ");
    if sender.0 == operator.0 {
        push_user(&mut base, opts, sender);
        base.append(" 撤回了一条消息");
    } else {
        push_user(&mut base, opts, operator);
        base.append(" 撤回了 ");
        push_user(&mut base, opts, sender);
        base.append(" 的一条消息");
    }
    match recall_preview(opts, id) {
        Some(p) => {
            if p.as_str().unicode_len() == 0 {
                base
            } else {
                base.append(": ");
                let c = truncate_preview(p.as_str(), 30);
                base.append(c.as_str());
                base
            }
        },
        None => base,
    }
}

fn tagged(opts: &RenderOpts, t: &str) -> (r: String)
    ensures
        r@ == ntag(*opts, t@),
{
    opts.style.paint("33", t)
}

/// Renders a notice (see [`notice_spec`]).
pub fn render_notice(n: &Notice, opts: &RenderOpts) -> (r: String)
    ensures
        r@ == notice_spec(*n, *opts),
{
    match n {
        Notice::Recall { id, sender, operator, .. } => render_recall(opts, id, *sender, *operator),
        Notice::MemberIncrease { group, user, operator, invitor } => {
            let mut out = tagged(opts, "[进群]");
            out.append(" ");
            push_user(&mut out, opts, *user);
            out.append(" 加入群 ");
            push_group(&mut out, opts, *group);
            let ghost before = out@;
            match invitor {
                Some(inv) => {
                    out.append("（");
                    push_user(&mut out, opts, *inv);
                    out.append(" 邀请）");
                },
                None => match operator {
                    Some(op) => {
                        out.append("（");
                        push_user(&mut out, opts, *op);
                        out.append(" 操作）");
                    },
                    None => {},
                },
            }
            let ghost tail = match *invitor {
                Some(inv) => "（"@ + user_spec(*opts, inv) + " 邀请）"@,
                None => match *operator {
                    Some(op) => "（"@ + user_spec(*opts, op) + " 操作）"@,
                    None => Seq::<char>::empty(),
                },
            };
            assert(out@ =~= before + tail);
            out
        },
        Notice::MemberDecrease { group, user, operator, reason } => {
            let how = match reason {
                MemberDecreaseReason::Leave => "退出",
                MemberDecreaseReason::Kick | MemberDecreaseReason::KickMe => "被踢出",
                MemberDecreaseReason::Disband => "因群解散离开",
                MemberDecreaseReason::Unknown => "离开",
            };
            assert(how@ == leave_how(*reason));
            let mut out = tagged(opts, "[退群]");
            out.append(" ");
            let kicked = match reason {
                MemberDecreaseReason::Kick | MemberDecreaseReason::KickMe => true,
                _ => false,
            };
            match operator {
                Some(op) if kicked => {
                    push_user(&mut out, opts, *op);
                    out.append(" 将 ");
                    push_user(&mut out, opts, *user);
                },
                _ => {
                    push_user(&mut out, opts, *user);
                },
            }
            out.append(" ");
            out.append(how);
            out.append("群 ");
            push_group(&mut out, opts, *group);
            out
        },
        Notice::AdminChange { group, user, is_set, .. } => {
            let mut out = tagged(opts, "[管理变更]");
            out.append(" ");
            push_user(&mut out, opts, *user);
            out.append(" 在群 ");
            push_group(&mut out, opts, *group);
            out.append(" ");
            out.append(if *is_set { "被设为" } else { "被取消" });
            out.append("管理员");
            out
        },
        Notice::Mute { group, user, operator, duration } => {
            let mut out = tagged(opts, "[禁言]");
            out.append(" ");
            push_user(&mut out, opts, *operator);
            out.append(" 禁言 ");
            push_user(&mut out, opts, *user);
            out.append(" ");
            push_decimal(&mut out, *duration as i64);
            out.append("s（群 ");
            push_group(&mut out, opts, *group);
            out.append("）");
            out
        },
        Notice::WholeMute { group, operator, is_mute } => {
            let mut out = tagged(opts, "[全员禁言]");
            out.append(" ");
            push_user(&mut out, opts, *operator);
            out.append(" ");
            out.append(if *is_mute { "开启" } else { "关闭" });
            out.append("群 ");
            push_group(&mut out, opts, *group);
            out.append(" 全员禁言");
            out
        },
        Notice::GroupNameChange { group, new_name, operator } => {
            let mut out = tagged(opts, "[群名变更]");
            out.append(" ");
            push_user(&mut out, opts, *operator);
            out.append(" 把群 ");
            push_group(&mut out, opts, *group);
            out.append(" 改名为 ");
            out.append(new_name.as_str());
            out
        },
        Notice::LuckyKing { group, user, target } => {
            let mut out = tagged(opts, "[运气王]");
            out.append(" 群 ");
            push_group(&mut out, opts, *group);
            out.append(" ");
            push_user(&mut out, opts, *user);
            out.append(" 的红包，运气王是 ");
            push_user(&mut out, opts, *target);
            out
        },
        Notice::Honor { group, user, honor } => {
            let h = match honor {
                HonorKind::Talkative => "龙王",
                HonorKind::Performer => "群聊之火",
                HonorKind::Emotion => "快乐源泉",
                HonorKind::Unknown => "荣誉",
            };
            assert(h@ == honor_name(*honor));
            let mut out = tagged(opts, "[荣誉]");
            out.append(" 群 ");
            push_group(&mut out, opts, *group);
            out.append(" ");
            push_user(&mut out, opts, *user);
            out.append(" 获得 ");
            out.append(h);
            out
        },
        Notice::GroupCardChange { group, user, new_card, .. } => {
            let mut out = tagged(opts, "[名片变更]");
            out.append(" 群 ");
            push_group(&mut out, opts, *group);
            out.append(" ");
            push_user(&mut out, opts, *user);
            out.append(" 改名片为 ");
            out.append(new_card.as_str());
            out
        },
        Notice::FriendNudge { user, display, .. } => {
            let mut out = tagged(opts, "[戳一戳]");
            out.append(" ");
            push_user(&mut out, opts, *user);
            out.append(" ");
            out.append(display.action.as_str());
            out.append("你");
            out.append(display.suffix.as_str());
            out
        },
        Notice::GroupNudge { group, sender, receiver, display } => {
            let mut out = tagged(opts, "[戳一戳]");
            out.append(" 群 ");
            push_group(&mut out, opts, *group);
            out.append(" ");
            push_user(&mut out, opts, *sender);
            out.append(" ");
            out.append(display.action.as_str());
            out.append("了 ");
            push_user(&mut out, opts, *receiver);
            out.append(display.suffix.as_str());
            out
        },
        Notice::Reaction { group, user, face_id, is_add } => {
            let mut out = tagged(opts, "[表情回应]");
            out.append(" 群 ");
            push_group(&mut out, opts, *group);
            out.append(" ");
            push_user(&mut out, opts, *user);
            out.append(" ");
            out.append(if *is_add { "回应" } else { "取消回应" });
            out.append(" ");
            out.append(face_id.as_str());
            out
        },
        Notice::EssenceChange { group, sender, is_set } => {
            let mut out = tagged(opts, "[精华]");
            out.append(" 群 ");
            push_group(&mut out, opts, *group);
            out.append(" ");
            out.append(if *is_set { "设为" } else { "取消" });
            let ghost before = out@;
            match sender {
                Some(s) => {
                    out.append("精华（作者 ");
                    push_user(&mut out, opts, *s);
                    out.append("）");
                },
                None => {
                    out.append("精华");
                },
            }
            let ghost tail = match *sender {
                Some(s) => "精华（作者 "@ + user_spec(*opts, s) + "）"@,
                None => "精华"@,
            };
            assert(out@ =~= before + tail);
            out
        },
        Notice::GroupFileUpload { group, user, file_name } => {
            let mut out = tagged(opts, "[群文件]");
            out.append(" 群 ");
            push_group(&mut out, opts, *group);
            out.append(" ");
            push_user(&mut out, opts, *user);
            out.append(" 上传 ");
            out.append(file_name.as_str());
            out
        },
        Notice::FriendFileUpload { user, file_name } => {
            let mut out = tagged(opts, "[私聊文件]");
            out.append(" ");
            push_user(&mut out, opts, *user);
            out.append(" 发送 ");
            out.append(file_name.as_str());
            out
        },
        Notice::FriendAdd { user } => {
            let mut out = tagged(opts, "[好友添加]");
            out.append(" 已添加好友 ");
            push_user(&mut out, opts, *user);
            out
        },
        Notice::PeerPinChange { peer, is_pinned } => {
            let mut out = tagged(opts, "[置顶变更]");
            out.append(" ");
            let sp = scene_prefix(*peer, opts);
            out.append(sp.as_str());
            out.append(if *is_pinned { "置顶" } else { "取消置顶" });
            out
        },
        Notice::BotOffline { reason } => {
            let mut out = tagged(opts, "[下线]");
            out.append(" ");
            out.append(reason.as_str());
            out
        },
        Notice::GroupDismiss { group, operator } => {
            let mut out = tagged(opts, "[群解散]");
            out.append(" ");
            push_user(&mut out, opts, *operator);
            out.append(" 解散了群 ");
            push_group(&mut out, opts, *group);
            out
        },
        Notice::GroupTitleChange { group, user, title } => {
            let mut out = tagged(opts, "[头衔变更]");
            out.append(" 群 ");
            push_group(&mut out, opts, *group);
            out.append(" ");
            push_user(&mut out, opts, *user);
            out.append(" 头衔变为 ");
            out.append(title.as_str());
            out
        },
        Notice::InputStatus { user, group, status_text } => {
            let mut out = tagged(opts, "[输入状态]");
            push_in_group(&mut out, opts, *group);
            out.append(" ");
            push_user(&mut out, opts, *user);
            out.append(" ");
            out.append(status_text.as_str());
            out
        },
        Notice::ProfileLike { operator, operator_nick, times } => {
            let mut out = tagged(opts, "[资料点赞]");
            out.append(" ");
            let ghost before = out@;
            let nick = trim(operator_nick.as_str());
            if nick.as_str().unicode_len() == 0 {
                push_user(&mut out, opts, *operator);
            } else {
                let c = clip_name(nick.as_str());
                out.append(c.as_str());
                out.append("(");
                push_decimal(&mut out, operator.0);
                out.append(")");
            }
            let ghost who = if trim_spec(operator_nick@).len() == 0 {
                user_spec(*opts, *operator)
            } else {
                truncate_spec(trim_spec(operator_nick@), NAME_MAX_CHARS as nat) + "("@ + decimal(operator.0 as int)
                    + ")"@
            };
            assert(out@ =~= before + who);
            out.append(" 点赞 ");
            push_decimal(&mut out, *times);
            out.append(" 次");
            out
        },
        Notice::GrayTip { group, content } => {
            let mut out = tagged(opts, "[灰字提示]");
            push_in_group(&mut out, opts, *group);
            out.append(" ");
            out.append(content.as_str());
            out
        },
        Notice::PokeRecall { group, user } => {
            let mut out = tagged(opts, "[戳一戳撤回]");
            push_in_group(&mut out, opts, *group);
            out.append(" ");
            push_user(&mut out, opts, *user);
            out.append(" 撤回了戳一戳");
            out
        },
        Notice::OnlineFile { direction, user, group } => {
            let mut out = tagged(opts, "[在线文件]");
            push_in_group(&mut out, opts, *group);
            out.append(" ");
            push_user(&mut out, opts, *user);
            out.append(" ");
            out.append(
                match direction {
                    OnlineFileDirection::Send => "发送",
                    OnlineFileDirection::Receive => "接收",
                },
            );
            out.append("在线文件");
            out
        },
        Notice::FlashFile { phase, user, group } => {
            let p = match phase {
                FlashFilePhase::Downloading => "下载中",
                FlashFilePhase::Downloaded => "下载完成",
                FlashFilePhase::Uploading => "上传中",
                FlashFilePhase::Uploaded => "上传完成",
                FlashFilePhase::Unknown => "进行中",
            };
            assert(p@ == flash_phase(*phase));
            let mut out = tagged(opts, "[闪传]");
            push_in_group(&mut out, opts, *group);
            out.append(" ");
            push_user(&mut out, opts, *user);
            out.append(" 闪传");
            out.append(p);
            out
        },
        Notice::Other { protocol, kind } => {
            let mut out = tagged(opts, "[通知]");
            out.append(" ");
            out.append(protocol.as_str());
            out.append(" ");
            out.append(kind.as_str());
            out
        },
        Notice::Unrecognized => tagged(opts, "[通知]"),
    }
}

/// The options with the event's own group context.
pub open spec fn in_context<'a>(opts: RenderOpts<'a>, group: Option<i64>) -> RenderOpts<'a> {
    RenderOpts { style: opts.style, names: opts.names, group, messages: opts.messages }
}

/// An event's line before line breaks are folded.
pub open spec fn event_text_spec(event: Event, opts: RenderOpts) -> Seq<char> {
    match event {
        Event::Message(m) => message_spec(m, opts),
        Event::Notice(n) => notice_spec(n, opts),
        Event::Request(r) => request_spec(r, opts),
        Event::Meta(m) => meta_spec(m, opts),
        Event::Raw { protocol, kind } => paint_spec(opts.style, "90"@, "[原始] "@ + protocol@ + " "@ + kind@),
        Event::Unrecognized => paint_spec(opts.style, "90"@, "[未知事件]"@),
    }
}

/// An event's line: rendered with the event's own group as the context for
/// names, its line breaks folded into ` ⏎ `.
pub open spec fn line_spec(event: Event, opts: RenderOpts) -> Seq<char> {
    fold_spec(event_text_spec(event, in_context(opts, event_group(event))))
}

/// Renders an event as one line, styled and with names as `opts` says (see [`line_spec`]).
pub fn render_line(event: &Event, opts: &RenderOpts) -> (r: String)
    ensures
        r@ == line_spec(*event, *opts),
{
    let group = event.group();
    let o = RenderOpts { style: opts.style, names: opts.names, group, messages: opts.messages };
    let line = match event {
        Event::Message(m) => render_message(m, &o),
        Event::Notice(n) => render_notice(n, &o),
        Event::Request(r) => render_request(r, &o),
        Event::Meta(m) => render_meta(m, &o),
        Event::Raw { protocol, kind } => {
            let mut l = String::from_str("[原始] ");
            l.append(protocol.as_str());
            l.append(" ");
            l.append(kind.as_str());
            o.style.paint("90", l.as_str())
        },
        Event::Unrecognized => o.style.paint("90", "[未知事件]"),
    };
    fold_newlines(line.as_str())
}

/// Renders an event as one line of plain text without name lookups.
pub fn render(event: &Event) -> (r: String)
    ensures
        r@ == line_spec(*event, RenderOpts::plain_spec()),
{
    let opts = RenderOpts::plain();
    render_line(event, &opts)
}

/// One event is always one log line: a rendered line holds no `\n` and no `\r`.
pub proof fn law_event_one_line(event: Event, opts: RenderOpts)
    ensures
        !line_spec(event, opts).contains('\n'),
        !line_spec(event, opts).contains('\r'),
{
    law_fold_single_line(event_text_spec(event, in_context(opts, event_group(event))));
}

/// Switching a whole-group mute on or off changes only the verb of its line:
/// the operator, then `开启` when the mute is switched on and `关闭` when it is
/// switched off, then the group.
pub proof fn law_whole_mute_verb(opts: RenderOpts, group: Uin, operator: Uin)
    ensures
        ({
            let head = ntag(opts, "[全员禁言]"@) + " "@ + user_spec(opts, operator) + " "@;
            let tail = "群 "@ + group_spec(opts, group) + " 全员禁言"@;
            &&& notice_spec(Notice::WholeMute { group, operator, is_mute: true }, opts) == head + "开启"@ + tail
            &&& notice_spec(Notice::WholeMute { group, operator, is_mute: false }, opts) == head + "关闭"@ + tail
        }),
{
}

/// Rendered plainly, a whole-group mute reads `[全员禁言] <operator> 开启群
/// <group> 全员禁言` when switched on, and with `关闭` in place of `开启` when
/// switched off.
pub proof fn law_render_whole_mute(group: Uin, operator: Uin, is_mute: bool)
    ensures
        is_mute ==> line_spec(Event::Notice(Notice::WholeMute { group, operator, is_mute }), RenderOpts::plain_spec())
            == "[全员禁言] "@ + decimal(operator.0 as int) + " 开启群 "@ + decimal(group.0 as int) + " 全员禁言"@,
        !is_mute ==> line_spec(Event::Notice(Notice::WholeMute { group, operator, is_mute }), RenderOpts::plain_spec())
            == "[全员禁言] "@ + decimal(operator.0 as int) + " 关闭群 "@ + decimal(group.0 as int) + " 全员禁言"@,
{
    let e = Event::Notice(Notice::WholeMute { group, operator, is_mute });
    let o = in_context(RenderOpts::plain_spec(), event_group(e));
    reveal_strlit("[全员禁言]");
    reveal_strlit("[全员禁言] ");
    reveal_strlit(" ");
    reveal_strlit("开启");
    reveal_strlit("关闭");
    reveal_strlit(" 开启群 ");
    reveal_strlit(" 关闭群 ");
    reveal_strlit("群 ");
    reveal_strlit(" 全员禁言");
    let a = decimal(operator.0 as int);
    let b = decimal(group.0 as int);
    assert(user_spec(o, operator) == a);
    assert(group_spec(o, group) == b);
    let verb = if is_mute { "开启"@ } else { "关闭"@ };
    let text = "[全员禁言]"@ + " "@ + a + " "@ + verb + "群 "@ + b + " 全员禁言"@;
    assert(event_text_spec(e, o) == text);
    let mid = if is_mute { " 开启群 "@ } else { " 关闭群 "@ };
    assert(text =~= "[全员禁言] "@ + a + mid + b + " 全员禁言"@);
    lemma_decimal_one_line(operator.0 as int);
    lemma_decimal_one_line(group.0 as int);
    assert forall|i: int| 0 <= i < text.len() implies #[trigger] text[i] != '\n' && text[i] != '\r' by {
        let p1 = "[全员禁言] "@;
        let p2 = p1 + a;
        let p3 = p2 + mid;
        let p4 = p3 + b;
        if i < p1.len() {
        } else if i < p2.len() {
            assert(text[i] == a[i - p1.len()]);
        } else if i < p3.len() {
        } else if i < p4.len() {
            assert(text[i] == b[i - p3.len()]);
        } else {
        }
    }
    lemma_fold_keeps_one_line(text);
}

/// A notice that a flag turns one way or the other names that way in its
/// verb, and differs in nothing else: an admin change says `被设为` when the
/// user became admin and `被取消` when the role was taken away; a reaction says
/// `回应` when it was added and `取消回应` when it was withdrawn; an essence
/// change says `设为` when a message was marked and `取消` when the mark was
/// removed; a pin change says `置顶` when pinned and `取消置顶` when unpinned;
/// an online file says `发送` when sent and `接收` when received.
pub proof fn law_flag_verbs(
    opts: RenderOpts,
    group: Uin,
    user: Uin,
    operator: Option<Uin>,
    face_id: String,
    sender: Option<Uin>,
    peer: Peer,
    file_group: Option<Uin>,
)
    ensures
        ({
            let head = ntag(opts, "[管理变更]"@) + " "@ + user_spec(opts, user) + " 在群 "@ + group_spec(opts, group) + " "@;
            &&& notice_spec(Notice::AdminChange { group, user, operator, is_set: true }, opts) == head + "被设为"@ + "管理员"@
            &&& notice_spec(Notice::AdminChange { group, user, operator, is_set: false }, opts) == head + "被取消"@ + "管理员"@
        }),
        ({
            let head = ntag(opts, "[表情回应]"@) + " 群 "@ + group_spec(opts, group) + " "@ + user_spec(opts, user) + " "@;
            let tail = " "@ + face_id@;
            &&& notice_spec(Notice::Reaction { group, user, face_id, is_add: true }, opts) == head + "回应"@ + tail
            &&& notice_spec(Notice::Reaction { group, user, face_id, is_add: false }, opts) == head + "取消回应"@ + tail
        }),
        ({
            let head = ntag(opts, "[精华]"@) + " 群 "@ + group_spec(opts, group) + " "@;
            let tail = match sender {
                Some(x) => "精华（作者 "@ + user_spec(opts, x) + "）"@,
                None => "精华"@,
            };
            &&& notice_spec(Notice::EssenceChange { group, sender, is_set: true }, opts) == head + "设为"@ + tail
            &&& notice_spec(Notice::EssenceChange { group, sender, is_set: false }, opts) == head + "取消"@ + tail
        }),
        ({
            let head = ntag(opts, "[置顶变更]"@) + " "@ + scene_prefix_spec(peer, opts);
            &&& notice_spec(Notice::PeerPinChange { peer, is_pinned: true }, opts) == head + "置顶"@
            &&& notice_spec(Notice::PeerPinChange { peer, is_pinned: false }, opts) == head + "取消置顶"@
        }),
        ({
            let head = ntag(opts, "[在线文件]"@) + in_group_spec(opts, file_group) + " "@ + user_spec(opts, user) + " "@;
            &&& notice_spec(Notice::OnlineFile { direction: OnlineFileDirection::Send, user, group: file_group }, opts)
                == head + "发送"@ + "在线文件"@
            &&& notice_spec(Notice::OnlineFile { direction: OnlineFileDirection::Receive, user, group: file_group }, opts)
                == head + "接收"@ + "在线文件"@
        }),
{
}

} // verus!
