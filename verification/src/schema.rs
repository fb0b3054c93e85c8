//! The event schema: the single source of truth for the 17 script event types
//! and their fields, exported to the editor and read by the validator.
use vstd::prelude::*;

verus! {

/// Which control renders a field.
#[derive(Debug, Clone, Copy, PartialEq, Eq, Structural)]
pub enum FieldKind {
    Text,
    Textarea,
    Number,
    Bool,
    Select,
    Character,
    Emotion,
    Chapter,
    Asset,
    ChoiceOptions,
    BranchOptions,
    VarOptions,
    Condition,
    Deprecated,
}

/// One field of an event (or of the story config).
#[derive(Debug, Clone)]
pub struct FieldSpec {
    /// The YAML key, spelled as the engine reads it.
    pub key: &'static str,
    pub label: &'static str,
    pub kind: FieldKind,
    pub required: bool,
    /// Asset category; meaningful for `Asset` fields only.
    pub asset_kind: Option<&'static str>,
    /// Candidates of a `Select` field.
    pub options: Vec<String>,
    /// Display names aligned with `options` (may be empty).
    pub option_labels: Vec<String>,
    pub placeholder: Option<&'static str>,
    /// Human-readable description of the engine's default.
    pub default_desc: Option<&'static str>,
    pub hint: Option<&'static str>,
    /// Whether the editor lets the author change the field.
    pub enabled: bool,
}

/// One event type.
#[derive(Debug, Clone)]
pub struct EventSpec {
    /// The YAML `type:` value.
    pub type_key: &'static str,
    pub label: &'static str,
    pub category: &'static str,
    pub color: &'static str,
    pub fields: Vec<FieldSpec>,
}

/// An action type of `choices` / `set_variable`.
#[derive(Debug, Clone)]
pub struct ActionSpec {
    pub type_key: &'static str,
    pub label: &'static str,
    pub hint: &'static str,
    /// Event types whose actions accept it.
    pub allowed_in: Vec<&'static str>,
}

/// An unlock condition type of bond adventures.
#[derive(Debug, Clone)]
pub struct UnlockConditionSpec {
    pub type_key: &'static str,
    pub label: &'static str,
    pub fields: Vec<FieldSpec>,
}

/// The condition syntax shown to authors.
#[derive(Debug, Clone)]
pub struct ConditionSyntax {
    pub supported: Vec<&'static str>,
    pub unsupported: Vec<&'static str>,
    pub note: &'static str,
}

/// The whole schema.
#[derive(Debug, Clone)]
pub struct ScriptSchema {
    pub events: Vec<EventSpec>,
    /// Fields every event has (condition, duration).
    pub common_fields: Vec<FieldSpec>,
    /// Fields of `story_config.yaml`.
    pub story_config_fields: Vec<FieldSpec>,
    pub action_types: Vec<ActionSpec>,
    pub unlock_condition_types: Vec<UnlockConditionSpec>,
    /// Top-level fields in which `%player%` is replaced.
    pub placeholder_fields: Vec<&'static str>,
    pub condition_syntax: ConditionSyntax,
}

/// What the validator reads of a field: key, required flag, kind, enabled flag.
pub open spec fn field_row(f: FieldSpec) -> (Seq<char>, bool, FieldKind, bool) {
    (f.key@, f.required, f.kind, f.enabled)
}

pub open spec fn field_rows(fs: Seq<FieldSpec>) -> Seq<(Seq<char>, bool, FieldKind, bool)> {
    fs.map_values(|f: FieldSpec| field_row(f))
}

/// The plain value of an optional text.
pub open spec fn opt_static(o: Option<&'static str>) -> Option<Seq<char>> {
    match o {
        Some(x) => Some(x@),
        None => None,
    }
}

/// What the editor shows of a field: label, placeholder, description of the
/// default, hint, and asset category.
pub open spec fn field_text(f: FieldSpec) -> (Seq<char>, Option<Seq<char>>, Option<Seq<char>>, Option<Seq<char>>, Option<Seq<char>>) {
    (f.label@, opt_static(f.placeholder), opt_static(f.default_desc), opt_static(f.hint), opt_static(f.asset_kind))
}

pub open spec fn field_texts(fs: Seq<FieldSpec>) -> Seq<(Seq<char>, Option<Seq<char>>, Option<Seq<char>>, Option<Seq<char>>, Option<Seq<char>>)> {
    fs.map_values(|f: FieldSpec| field_text(f))
}

/// What the editor shows of the fields of the `k`-th event type.
pub open spec fn event_text_table(k: int) -> Seq<(Seq<char>, Option<Seq<char>>, Option<Seq<char>>, Option<Seq<char>>, Option<Seq<char>>)> {
    if k == 0 {
        seq![("旁白文本"@, None::<Seq<char>>, None::<Seq<char>>, Some("多行会逐行依次显示，空行被跳过"@), None::<Seq<char>>), ("说话人标签"@, Some("旁白"@), None::<Seq<char>>, None::<Seq<char>>, None::<Seq<char>>)]
    } else if k == 1 {
        seq![("台词"@, None::<Seq<char>>, None::<Seq<char>>, None::<Seq<char>>, None::<Seq<char>>), ("显示名"@, Some("（跟随玩家名）"@), None::<Seq<char>>, None::<Seq<char>>, None::<Seq<char>>)]
    } else if k == 2 {
        seq![("角色"@, None::<Seq<char>>, None::<Seq<char>>, Some("MAIN = 当前选中的主角；其余为本剧本 characters/ 下的目录名"@), None::<Seq<char>>), ("台词"@, None::<Seq<char>>, None::<Seq<char>>, Some("想让这句话真正「说」出来，必须同时满足两个条件：1) 台词最开头用【开心】【难过】等情绪标注；2) 所选角色已在「角色设置」里开启语音。缺一不可，否则只会显示文字、不会发声。例：【开心】今天能见到你，我真的很高兴！"@), None::<Seq<char>>), ("情绪"@, None::<Seq<char>>, None::<Seq<char>>, Some("表外的值会回落成「正常」"@), None::<Seq<char>>), ("显示名"@, None::<Seq<char>>, None::<Seq<char>>, None::<Seq<char>>, None::<Seq<char>>), ("副标题"@, None::<Seq<char>>, None::<Seq<char>>, None::<Seq<char>>, None::<Seq<char>>)]
    } else if k == 3 {
        seq![("角色"@, None::<Seq<char>>, None::<Seq<char>>, Some("MAIN = 当前选中的主角；其余为本剧本 characters/ 下的目录名"@), None::<Seq<char>>), ("剧情提示"@, None::<Seq<char>>, None::<Seq<char>>, Some("以旁白身份注入上下文引导 AI；留空则纯靠已有台词生成。注意提示会留在上下文里累积"@), None::<Seq<char>>)]
    } else if k == 4 {
        seq![("角色"@, None::<Seq<char>>, None::<Seq<char>>, Some("MAIN = 当前选中的主角；其余为本剧本 characters/ 下的目录名"@), None::<Seq<char>>), ("输入框提示"@, Some("自由对话..."@), None::<Seq<char>>, None::<Seq<char>>, None::<Seq<char>>), ("最大轮数"@, Some("-1"@), None::<Seq<char>>, Some("留空或 ≤0 表示不限轮数，此时唯一出口是玩家输入包含结束语"@), None::<Seq<char>>), ("结束语"@, Some("结束"@), None::<Seq<char>>, Some("玩家输入里出现这个文字就会结束对话（比如「结束」）"@), None::<Seq<char>>), ("每轮剧情提示"@, None::<Seq<char>>, None::<Seq<char>>, None::<Seq<char>>, None::<Seq<char>>), ("末轮剧情提示"@, None::<Seq<char>>, None::<Seq<char>>, None::<Seq<char>>, None::<Seq<char>>)]
    } else if k == 5 {
        seq![("选项列表"@, None::<Seq<char>>, None::<Seq<char>>, Some("顺序即优先级；不带文案的选项匹配任意输入，必须放最后"@), None::<Seq<char>>), ("允许自由输入"@, None::<Seq<char>>, Some("false"@), Some("开启后玩家可以在输入框里直接打字作答"@), None::<Seq<char>>)]
    } else if k == 6 {
        seq![("输入框提示"@, Some("请输入..."@), None::<Seq<char>>, Some("不填时输入框显示默认提示「请输入...」"@), None::<Seq<char>>)]
    } else if k == 7 {
        seq![("赋值组"@, None::<Seq<char>>, None::<Seq<char>>, Some("每组可带条件；与 choices 不同，这里所有满足条件的组都会执行"@), None::<Seq<char>>)]
    } else if k == 8 {
        seq![("结束方式"@, None::<Seq<char>>, None::<Seq<char>>, Some("linear 直接跳转；branching 按条件分支；ai_judged 交给 LLM 判断"@), None::<Seq<char>>), ("下一章"@, None::<Seq<char>>, None::<Seq<char>>, Some("仅 linear 使用；选「剧本结束」即整个剧本结束"@), None::<Seq<char>>), ("分支"@, None::<Seq<char>>, None::<Seq<char>>, Some("branching / ai_judged 使用；顺序即优先级，可设一个 default 兜底"@), None::<Seq<char>>), ("AI 判定提示"@, None::<Seq<char>>, None::<Seq<char>>, Some("仅 ai_judged 使用"@), None::<Seq<char>>), ("下一章（旧字段）"@, None::<Seq<char>>, None::<Seq<char>>, Some("引擎里它的优先级高于「下一章」。老剧本才有，新剧本请只用上面那个"@), None::<Seq<char>>)]
    } else if k == 9 {
        seq![("角色"@, None::<Seq<char>>, None::<Seq<char>>, Some("MAIN = 当前选中的主角；其余为本剧本 characters/ 下的目录名"@), None::<Seq<char>>), ("动作"@, None::<Seq<char>>, None::<Seq<char>>, None::<Seq<char>>, None::<Seq<char>>), ("情绪"@, None::<Seq<char>>, None::<Seq<char>>, Some("表外的值会回落成「正常」"@), None::<Seq<char>>), ("服装"@, None::<Seq<char>>, None::<Seq<char>>, Some("对应 avatar/<服装>/ 子目录；留空或 default 表示不进子目录"@), None::<Seq<char>>), ("能否听到后续台词"@, None::<Seq<char>>, Some("保持当前状态"@), Some("决定该角色是否出现在后续台词的「感知者」列表里。注意 hide_character 会同时把角色移出感知列表"@), None::<Seq<char>>)]
    } else if k == 10 {
        seq![("背景图"@, None::<Seq<char>>, None::<Seq<char>>, None::<Seq<char>>, Some("background"@)), ("过渡时长（秒）"@, Some("1.0"@), None::<Seq<char>>, None::<Seq<char>>, None::<Seq<char>>)]
    } else if k == 11 {
        seq![("特效"@, None::<Seq<char>>, None::<Seq<char>>, Some("从下拉里选；选「无特效」会清空当前特效"@), None::<Seq<char>>)]
    } else if k == 12 {
        seq![("图片"@, None::<Seq<char>>, None::<Seq<char>>, None::<Seq<char>>, Some("pic"@)), ("缩放"@, Some("1.0"@), None::<Seq<char>>, None::<Seq<char>>, None::<Seq<char>>)]
    } else if k == 13 {
        seq![("音乐"@, None::<Seq<char>>, None::<Seq<char>>, None::<Seq<char>>, Some("music"@)), ("播放速度"@, None::<Seq<char>>, None::<Seq<char>>, Some("1.0 = 原速；留空同 1.0。范围建议 0.5–2.0，超出可能失真"@), None::<Seq<char>>)]
    } else if k == 14 {
        seq![("音效"@, None::<Seq<char>>, None::<Seq<char>>, None::<Seq<char>>, Some("sound"@))]
    } else if k == 15 {
        seq![("环境音"@, None::<Seq<char>>, None::<Seq<char>>, Some("播放时必填；配合下面的「停止该轨」留空表示停掉全部环境音"@), Some("ambient"@)), ("音量"@, Some("100"@), None::<Seq<char>>, Some("0–100"@), None::<Seq<char>>), ("循环"@, None::<Seq<char>>, Some("true"@), None::<Seq<char>>, None::<Seq<char>>), ("停止该轨"@, None::<Seq<char>>, Some("false"@), Some("开启时会淡出停止；环境音留空则停止全部轨道"@), None::<Seq<char>>), ("淡入淡出"@, None::<Seq<char>>, Some("true"@), None::<Seq<char>>, None::<Seq<char>>)]
    } else if k == 16 {
        seq![("成就键名"@, Some("如：summer_star"@), None::<Seq<char>>, Some("给这个成就起的英文标识，不能与内置成就或本剧本其他成就重名（校验器会提示）"@), None::<Seq<char>>), ("成就标题"@, Some("如：夏日之星"@), None::<Seq<char>>, Some("玩家在成就列表里看到的成就名字"@), None::<Seq<char>>), ("成就描述"@, None::<Seq<char>>, None::<Seq<char>>, Some("达成条件说明，展示给玩家看"@), None::<Seq<char>>)]
    } else {
        seq![]
    }
}

pub open spec fn event_keys(es: Seq<EventSpec>) -> Seq<Seq<char>> {
    es.map_values(|e: EventSpec| e.type_key@)
}

impl FieldSpec {
    fn new(key: &'static str, label: &'static str, kind: FieldKind) -> (r: FieldSpec)
        ensures
            r.key == key,
            r.label == label,
            r.kind == kind,
            !r.required,
            r.asset_kind is None,
            r.options@.len() == 0,
            r.option_labels@.len() == 0,
            r.enabled,
            r.placeholder is None,
            r.default_desc is None,
            r.hint is None,
    {
        FieldSpec {
            key,
            label,
            kind,
            required: false,
            asset_kind: None,
            options: Vec::new(),
            option_labels: Vec::new(),
            placeholder: None,
            default_desc: None,
            hint: None,
            enabled: true,
        }
    }

    fn required(self) -> (r: FieldSpec)
        ensures
            r == (FieldSpec { required: true, ..self }),
    {
        FieldSpec { required: true, ..self }
    }

    fn hint(self, h: &'static str) -> (r: FieldSpec)
        ensures
            r == (FieldSpec { hint: Some(h), ..self }),
    {
        FieldSpec { hint: Some(h), ..self }
    }

    fn placeholder(self, p: &'static str) -> (r: FieldSpec)
        ensures
            r == (FieldSpec { placeholder: Some(p), ..self }),
    {
        FieldSpec { placeholder: Some(p), ..self }
    }

    fn default_desc(self, d: &'static str) -> (r: FieldSpec)
        ensures
            r == (FieldSpec { default_desc: Some(d), ..self }),
    {
        FieldSpec { default_desc: Some(d), ..self }
    }

    fn options(self, opts: Vec<String>) -> (r: FieldSpec)
        ensures
            r == (FieldSpec { options: opts, ..self }),
    {
        FieldSpec { options: opts, ..self }
    }

    fn option_labels(self, labels: Vec<String>) -> (r: FieldSpec)
        ensures
            r == (FieldSpec { option_labels: labels, ..self }),
    {
        FieldSpec { option_labels: labels, ..self }
    }

    fn asset(self, kind: &'static str) -> (r: FieldSpec)
        ensures
            r == (FieldSpec { asset_kind: Some(kind), ..self }),
    {
        FieldSpec { asset_kind: Some(kind), ..self }
    }

    fn disabled(self, why: &'static str) -> (r: FieldSpec)
        ensures
            r == (FieldSpec { enabled: false, hint: Some(why), ..self }),
    {
        FieldSpec { enabled: false, hint: Some(why), ..self }
    }
}

fn strings(items: &[&str]) -> (r: Vec<String>)
    ensures
        r@.len() == items@.len(),
        forall|k: int| 0 <= k < items@.len() ==> #[trigger] r@[k]@ == items@[k]@,
{
    let mut r: Vec<String> = Vec::new();
    let mut i: usize = 0;
    while i < items.len()
        invariant
            i <= items@.len(),
            r@.len() == i,
            forall|k: int| 0 <= k < i ==> #[trigger] r@[k]@ == items@[k]@,
        decreases items@.len() - i,
    {
        r.push(crate::text::owned(items[i]));
        i = i + 1;
    }
    r
}

fn character_field() -> (r: FieldSpec)
    ensures
        field_row(r) == ("character"@, true, FieldKind::Character, true),
        field_text(r) == ("角色"@, None::<Seq<char>>, None::<Seq<char>>, Some("MAIN = 当前选中的主角；其余为本剧本 characters/ 下的目录名"@), None::<Seq<char>>),
        r.asset_kind is None,
        r.option_labels@.len() == 0,
{
    FieldSpec::new("character", "角色", FieldKind::Character)
        .required()
        .hint("MAIN = 当前选中的主角；其余为本剧本 characters/ 下的目录名")
}

fn emotion_field() -> (r: FieldSpec)
    ensures
        field_row(r) == ("emotion"@, false, FieldKind::Emotion, true),
        field_text(r) == ("情绪"@, None::<Seq<char>>, None::<Seq<char>>, Some("表外的值会回落成「正常」"@), None::<Seq<char>>),
        r.asset_kind is None,
        r.option_labels@.len() == 0,
{
    FieldSpec::new("emotion", "情绪", FieldKind::Emotion).hint("表外的值会回落成「正常」")
}

/// `"None"` followed by the engine's known background effects.
pub open spec fn effect_options_spec(known: Seq<&'static str>) -> Seq<Seq<char>> {
    seq!["None"@] + known.map_values(|k: &'static str| k@)
}

fn effect_options(known_effects: &[&'static str]) -> (r: Vec<String>)
    ensures
        r@.map_values(|s: String| s@) == effect_options_spec(known_effects@),
{
    let mut v: Vec<String> = Vec::new();
    v.push(crate::text::owned("None"));
    let mut i: usize = 0;
    while i < known_effects.len()
        invariant
            i <= known_effects@.len(),
            v@.map_values(|s: String| s@) == seq!["None"@] + known_effects@.subrange(0, i as int).map_values(|k: &'static str| k@),
        decreases known_effects@.len() - i,
    {
        let ghost before = v@;
        v.push(crate::text::owned(known_effects[i]));
        proof {
            assert(v@ == before.push(v@.last()));
            assert(v@.map_values(|s: String| s@) =~= before.map_values(|s: String| s@).push(known_effects@[i as int]@));
            assert(known_effects@.subrange(0, i + 1).map_values(|k: &'static str| k@)
                =~= known_effects@.subrange(0, i as int).map_values(|k: &'static str| k@).push(known_effects@[i as int]@));
        }
        i = i + 1;
    }
    assert(known_effects@.subrange(0, i as int) =~= known_effects@);
    v
}

/// The type keys of the 17 event types, in schema order.
pub open spec fn event_type_table() -> Seq<Seq<char>> {
    seq!["narration"@, "player"@, "dialogue"@, "ai_dialogue"@, "free_dialogue"@, "choices"@, "input"@, "set_variable"@, "chapter_end"@, "modify_character"@, "background"@, "background_effect"@, "present_pic"@, "music"@, "sound"@, "ambient"@, "unlock_achievement"@]
}

/// What the validator reads of the fields of the `k`-th event type.
pub open spec fn event_field_table(k: int) -> Seq<(Seq<char>, bool, FieldKind, bool)> {

    if k == 0 {
        seq![("text"@, true, FieldKind::Textarea, true), ("displayName"@, false, FieldKind::Text, true)]
    }
     else if k == 1 {
        seq![("text"@, true, FieldKind::Textarea, true), ("displayName"@, false, FieldKind::Text, true)]
    }
     else if k == 2 {
        seq![("character"@, true, FieldKind::Character, true), ("text"@, true, FieldKind::Textarea, true), ("emotion"@, false, FieldKind::Emotion, true), ("displayName"@, false, FieldKind::Text, true), ("displaySubtitle"@, false, FieldKind::Text, true)]
    }
     else if k == 3 {
        seq![("character"@, true, FieldKind::Character, true), ("prompt"@, false, FieldKind::Textarea, true)]
    }
     else if k == 4 {
        seq![("character"@, true, FieldKind::Character, true), ("hint"@, false, FieldKind::Text, true), ("max_rounds"@, false, FieldKind::Number, true), ("end_line"@, false, FieldKind::Text, true), ("prompt"@, false, FieldKind::Textarea, true), ("end_prompt"@, false, FieldKind::Textarea, true)]
    }
     else if k == 5 {
        seq![("options"@, true, FieldKind::ChoiceOptions, true), ("allow_free"@, false, FieldKind::Bool, true)]
    }
     else if k == 6 {
        seq![("hint"@, false, FieldKind::Text, true)]
    }
     else if k == 7 {
        seq![("options"@, true, FieldKind::VarOptions, true)]
    }
     else if k == 8 {
        seq![("end_type"@, true, FieldKind::Select, true), ("next_chapter"@, false, FieldKind::Chapter, true), ("options"@, false, FieldKind::BranchOptions, true), ("prompt"@, false, FieldKind::Textarea, true), ("next"@, false, FieldKind::Deprecated, false)]
    }
     else if k == 9 {
        seq![("character"@, true, FieldKind::Character, true), ("action"@, false, FieldKind::Select, true), ("emotion"@, false, FieldKind::Emotion, true), ("clothes"@, false, FieldKind::Text, true), ("perceive"@, false, FieldKind::Bool, true)]
    }
     else if k == 10 {
        seq![("imagePath"@, true, FieldKind::Asset, true), ("transition"@, false, FieldKind::Number, true)]
    }
     else if k == 11 {
        seq![("effect"@, true, FieldKind::Select, true)]
    }
     else if k == 12 {
        seq![("imagePath"@, true, FieldKind::Asset, true), ("scale"@, false, FieldKind::Number, true)]
    }
     else if k == 13 {
        seq![("musicPath"@, true, FieldKind::Asset, true), ("playbackSpeed"@, false, FieldKind::Number, true)]
    }
     else if k == 14 {
        seq![("soundPath"@, true, FieldKind::Asset, true)]
    }
     else if k == 15 {
        seq![("ambientPath"@, false, FieldKind::Asset, true), ("volume"@, false, FieldKind::Number, true), ("loop"@, false, FieldKind::Bool, true), ("stop"@, false, FieldKind::Bool, true), ("fade"@, false, FieldKind::Bool, true)]
    }
     else if k == 16 {
        seq![("achievement_id"@, true, FieldKind::Text, true), ("title"@, true, FieldKind::Text, true), ("description"@, true, FieldKind::Textarea, true)]
    }
 else {
        Seq::empty()
    }
}

/// Every field of `fs` that renders as an asset picker names its asset kind,
/// and every list of option labels is empty or as long as its options.
pub open spec fn fields_consistent(fs: Seq<FieldSpec>) -> bool {
    forall|j: int| 0 <= j < fs.len() ==> {
        &&& (#[trigger] fs[j]).kind == FieldKind::Asset ==> fs[j].asset_kind is Some
        &&& (fs[j].option_labels@.len() == 0 || fs[j].option_labels@.len() == fs[j].options@.len())
    }
}

fn narration_event() -> (r: EventSpec)
    ensures
        r.type_key@ == "narration"@,
        r.label@ == "旁白"@ && r.category@ == "叙事"@ && r.color@ == "#94a3b8"@,
        field_rows(r.fields@) == event_field_table(0),
        field_texts(r.fields@) == event_text_table(0),
        fields_consistent(r.fields@),
{
    let fields = vec![
            FieldSpec::new("text", "旁白文本", FieldKind::Textarea).required().hint("多行会逐行依次显示，空行被跳过"),
            FieldSpec::new("displayName", "说话人标签", FieldKind::Text).placeholder("旁白"),
        ];
    let r = EventSpec { type_key: "narration", label: "旁白", category: "叙事", color: "#94a3b8", fields };
    assert(field_rows(r.fields@) =~= event_field_table(0));
    assert(field_texts(r.fields@) =~= event_text_table(0));
    r
}

fn player_event() -> (r: EventSpec)
    ensures
        r.type_key@ == "player"@,
        r.label@ == "玩家台词"@ && r.category@ == "叙事"@ && r.color@ == "#38bdf8"@,
        field_rows(r.fields@) == event_field_table(1),
        field_texts(r.fields@) == event_text_table(1),
        fields_consistent(r.fields@),
{
    let fields = vec![
            FieldSpec::new("text", "台词", FieldKind::Textarea).required(),
            FieldSpec::new("displayName", "显示名", FieldKind::Text).placeholder("（跟随玩家名）"),
        ];
    let r = EventSpec { type_key: "player", label: "玩家台词", category: "叙事", color: "#38bdf8", fields };
    assert(field_rows(r.fields@) =~= event_field_table(1));
    assert(field_texts(r.fields@) =~= event_text_table(1));
    r
}

fn dialogue_event() -> (r: EventSpec)
    ensures
        r.type_key@ == "dialogue"@,
        r.label@ == "AI台词"@ && r.category@ == "叙事"@ && r.color@ == "#a78bfa"@,
        field_rows(r.fields@) == event_field_table(2),
        field_texts(r.fields@) == event_text_table(2),
        fields_consistent(r.fields@),
{
    let fields = vec![
            character_field(),
            FieldSpec::new("text", "台词", FieldKind::Textarea).required().hint("想让这句话真正「说」出来，必须同时满足两个条件：1) 台词最开头用【开心】【难过】等情绪标注；2) 所选角色已在「角色设置」里开启语音。缺一不可，否则只会显示文字、不会发声。例：【开心】今天能见到你，我真的很高兴！"),
            emotion_field(),
            FieldSpec::new("displayName", "显示名", FieldKind::Text),
            FieldSpec::new("displaySubtitle", "副标题", FieldKind::Text),
        ];
    let r = EventSpec { type_key: "dialogue", label: "AI台词", category: "叙事", color: "#a78bfa", fields };
    assert(field_rows(r.fields@) =~= event_field_table(2));
    assert(field_texts(r.fields@) =~= event_text_table(2));
    r
}

fn ai_dialogue_event() -> (r: EventSpec)
    ensures
        r.type_key@ == "ai_dialogue"@,
        r.label@ == "AI 对话"@ && r.category@ == "AI"@ && r.color@ == "#e879f9"@,
        field_rows(r.fields@) == event_field_table(3),
        field_texts(r.fields@) == event_text_table(3),
        fields_consistent(r.fields@),
{
    let fields = vec![
            character_field(),
            FieldSpec::new("prompt", "剧情提示", FieldKind::Textarea).hint("以旁白身份注入上下文引导 AI；留空则纯靠已有台词生成。注意提示会留在上下文里累积"),
        ];
    let r = EventSpec { type_key: "ai_dialogue", label: "AI 对话", category: "AI", color: "#e879f9", fields };
    assert(field_rows(r.fields@) =~= event_field_table(3));
    assert(field_texts(r.fields@) =~= event_text_table(3));
    r
}

fn free_dialogue_event() -> (r: EventSpec)
    ensures
        r.type_key@ == "free_dialogue"@,
        r.label@ == "自由对话"@ && r.category@ == "AI"@ && r.color@ == "#f472b6"@,
        field_rows(r.fields@) == event_field_table(4),
        field_texts(r.fields@) == event_text_table(4),
        fields_consistent(r.fields@),
{
    let fields = vec![
            character_field(),
            FieldSpec::new("hint", "输入框提示", FieldKind::Text).placeholder("自由对话..."),
            FieldSpec::new("max_rounds", "最大轮数", FieldKind::Number).placeholder("-1").hint("留空或 ≤0 表示不限轮数，此时唯一出口是玩家输入包含结束语"),
            FieldSpec::new("end_line", "结束语", FieldKind::Text).placeholder("结束").hint("玩家输入里出现这个文字就会结束对话（比如「结束」）"),
            FieldSpec::new("prompt", "每轮剧情提示", FieldKind::Textarea),
            FieldSpec::new("end_prompt", "末轮剧情提示", FieldKind::Textarea),
        ];
    let r = EventSpec { type_key: "free_dialogue", label: "自由对话", category: "AI", color: "#f472b6", fields };
    assert(field_rows(r.fields@) =~= event_field_table(4));
    assert(field_texts(r.fields@) =~= event_text_table(4));
    r
}

fn choices_event() -> (r: EventSpec)
    ensures
        r.type_key@ == "choices"@,
        r.label@ == "选项"@ && r.category@ == "交互"@ && r.color@ == "#818cf8"@,
        field_rows(r.fields@) == event_field_table(5),
        field_texts(r.fields@) == event_text_table(5),
        fields_consistent(r.fields@),
{
    let fields = vec![
            FieldSpec::new("options", "选项列表", FieldKind::ChoiceOptions).required().hint("顺序即优先级；不带文案的选项匹配任意输入，必须放最后"),
            FieldSpec::new("allow_free", "允许自由输入", FieldKind::Bool).default_desc("false").hint("开启后玩家可以在输入框里直接打字作答"),
        ];
    let r = EventSpec { type_key: "choices", label: "选项", category: "交互", color: "#818cf8", fields };
    assert(field_rows(r.fields@) =~= event_field_table(5));
    assert(field_texts(r.fields@) =~= event_text_table(5));
    r
}

fn input_event() -> (r: EventSpec)
    ensures
        r.type_key@ == "input"@,
        r.label@ == "等待输入"@ && r.category@ == "交互"@ && r.color@ == "#60a5fa"@,
        field_rows(r.fields@) == event_field_table(6),
        field_texts(r.fields@) == event_text_table(6),
        fields_consistent(r.fields@),
{
    let fields = vec![
            FieldSpec::new("hint", "输入框提示", FieldKind::Text).placeholder("请输入...").hint("不填时输入框显示默认提示「请输入...」"),
        ];
    let r = EventSpec { type_key: "input", label: "等待输入", category: "交互", color: "#60a5fa", fields };
    assert(field_rows(r.fields@) =~= event_field_table(6));
    assert(field_texts(r.fields@) =~= event_text_table(6));
    r
}

fn set_variable_event() -> (r: EventSpec)
    ensures
        r.type_key@ == "set_variable"@,
        r.label@ == "设置变量"@ && r.category@ == "流程"@ && r.color@ == "#f87171"@,
        field_rows(r.fields@) == event_field_table(7),
        field_texts(r.fields@) == event_text_table(7),
        fields_consistent(r.fields@),
{
    let fields = vec![
            FieldSpec::new("options", "赋值组", FieldKind::VarOptions).required().hint("每组可带条件；与 choices 不同，这里所有满足条件的组都会执行"),
        ];
    let r = EventSpec { type_key: "set_variable", label: "设置变量", category: "流程", color: "#f87171", fields };
    assert(field_rows(r.fields@) =~= event_field_table(7));
    assert(field_texts(r.fields@) =~= event_text_table(7));
    r
}

fn chapter_end_event() -> (r: EventSpec)
    ensures
        r.type_key@ == "chapter_end"@,
        r.label@ == "章节结束"@ && r.category@ == "流程"@ && r.color@ == "#e2e8f0"@,
        field_rows(r.fields@) == event_field_table(8),
        field_texts(r.fields@) == event_text_table(8),
        r.fields@[0].options@.map_values(|x: String| x@) == seq!["linear"@, "branching"@, "ai_judged"@],
        fields_consistent(r.fields@),
{
    let fields = vec![
            FieldSpec::new("end_type", "结束方式", FieldKind::Select).required().options(strings(&["linear", "branching", "ai_judged"])).hint("linear 直接跳转；branching 按条件分支；ai_judged 交给 LLM 判断"),
            FieldSpec::new("next_chapter", "下一章", FieldKind::Chapter).hint("仅 linear 使用；选「剧本结束」即整个剧本结束"),
            FieldSpec::new("options", "分支", FieldKind::BranchOptions).hint("branching / ai_judged 使用；顺序即优先级，可设一个 default 兜底"),
            FieldSpec::new("prompt", "AI 判定提示", FieldKind::Textarea).hint("仅 ai_judged 使用"),
            FieldSpec::new("next", "下一章（旧字段）", FieldKind::Deprecated).disabled("引擎里它的优先级高于「下一章」。老剧本才有，新剧本请只用上面那个"),
        ];
    let r = EventSpec { type_key: "chapter_end", label: "章节结束", category: "流程", color: "#e2e8f0", fields };
    assert(field_rows(r.fields@) =~= event_field_table(8));
    assert(field_texts(r.fields@) =~= event_text_table(8));
    assert(r.fields@[0].options@.map_values(|x: String| x@) =~= seq!["linear"@, "branching"@, "ai_judged"@]);
    r
}

fn modify_character_event() -> (r: EventSpec)
    ensures
        r.type_key@ == "modify_character"@,
        r.label@ == "角色调整"@ && r.category@ == "演出"@ && r.color@ == "#fbbf24"@,
        field_rows(r.fields@) == event_field_table(9),
        field_texts(r.fields@) == event_text_table(9),
        r.fields@[1].options@.map_values(|x: String| x@) == seq!["show_character"@, "hide_character"@],
        r.fields@[1].option_labels@.map_values(|x: String| x@) == seq!["show_character（显示角色）"@, "hide_character（隐藏角色）"@],
        fields_consistent(r.fields@),
{
    let fields = vec![
            character_field(),
            FieldSpec::new("action", "动作", FieldKind::Select).options(strings(&["show_character", "hide_character"])).option_labels(strings(&["show_character（显示角色）", "hide_character（隐藏角色）"])),
            emotion_field(),
            FieldSpec::new("clothes", "服装", FieldKind::Text).hint("对应 avatar/<服装>/ 子目录；留空或 default 表示不进子目录"),
            FieldSpec::new("perceive", "能否听到后续台词", FieldKind::Bool).default_desc("保持当前状态").hint("决定该角色是否出现在后续台词的「感知者」列表里。注意 hide_character 会同时把角色移出感知列表"),
        ];
    let r = EventSpec { type_key: "modify_character", label: "角色调整", category: "演出", color: "#fbbf24", fields };
    assert(field_rows(r.fields@) =~= event_field_table(9));
    assert(field_texts(r.fields@) =~= event_text_table(9));
    assert(r.fields@[1].options@.map_values(|x: String| x@) =~= seq!["show_character"@, "hide_character"@]);
    assert(r.fields@[1].option_labels@.map_values(|x: String| x@) =~= seq!["show_character（显示角色）"@, "hide_character（隐藏角色）"@]);
    r
}

fn background_event() -> (r: EventSpec)
    ensures
        r.type_key@ == "background"@,
        r.label@ == "背景"@ && r.category@ == "演出"@ && r.color@ == "#34d399"@,
        field_rows(r.fields@) == event_field_table(10),
        field_texts(r.fields@) == event_text_table(10),
        fields_consistent(r.fields@),
{
    let fields = vec![
            FieldSpec::new("imagePath", "背景图", FieldKind::Asset).required().asset("background"),
            FieldSpec::new("transition", "过渡时长（秒）", FieldKind::Number).placeholder("1.0"),
        ];
    let r = EventSpec { type_key: "background", label: "背景", category: "演出", color: "#34d399", fields };
    assert(field_rows(r.fields@) =~= event_field_table(10));
    assert(field_texts(r.fields@) =~= event_text_table(10));
    r
}

fn background_effect_event(known_effects: &[&'static str]) -> (r: EventSpec)
    ensures
        r.type_key@ == "background_effect"@,
        r.label@ == "背景特效"@ && r.category@ == "演出"@ && r.color@ == "#2dd4bf"@,
        field_rows(r.fields@) == event_field_table(11),
        field_texts(r.fields@) == event_text_table(11),
        fields_consistent(r.fields@),
        r.fields@[0].options@.map_values(|s: String| s@) == effect_options_spec(known_effects@),
{
    let fields = vec![
            FieldSpec::new("effect", "特效", FieldKind::Select).required().options(effect_options(known_effects)).hint("从下拉里选；选「无特效」会清空当前特效"),
        ];
    let r = EventSpec { type_key: "background_effect", label: "背景特效", category: "演出", color: "#2dd4bf", fields };
    assert(field_rows(r.fields@) =~= event_field_table(11));
    assert(field_texts(r.fields@) =~= event_text_table(11));
    r
}

fn present_pic_event() -> (r: EventSpec)
    ensures
        r.type_key@ == "present_pic"@,
        r.label@ == "插图"@ && r.category@ == "演出"@ && r.color@ == "#a3e635"@,
        field_rows(r.fields@) == event_field_table(12),
        field_texts(r.fields@) == event_text_table(12),
        fields_consistent(r.fields@),
{
    let fields = vec![
            FieldSpec::new("imagePath", "图片", FieldKind::Asset).required().asset("pic"),
            FieldSpec::new("scale", "缩放", FieldKind::Number).placeholder("1.0"),
        ];
    let r = EventSpec { type_key: "present_pic", label: "插图", category: "演出", color: "#a3e635", fields };
    assert(field_rows(r.fields@) =~= event_field_table(12));
    assert(field_texts(r.fields@) =~= event_text_table(12));
    r
}

fn music_event() -> (r: EventSpec)
    ensures
        r.type_key@ == "music"@,
        r.label@ == "背景音乐"@ && r.category@ == "声音"@ && r.color@ == "#fb923c"@,
        field_rows(r.fields@) == event_field_table(13),
        field_texts(r.fields@) == event_text_table(13),
        fields_consistent(r.fields@),
{
    let fields = vec![
            FieldSpec::new("musicPath", "音乐", FieldKind::Asset).required().asset("music"),
            FieldSpec::new("playbackSpeed", "播放速度", FieldKind::Number).hint("1.0 = 原速；留空同 1.0。范围建议 0.5–2.0，超出可能失真"),
        ];
    let r = EventSpec { type_key: "music", label: "背景音乐", category: "声音", color: "#fb923c", fields };
    assert(field_rows(r.fields@) =~= event_field_table(13));
    assert(field_texts(r.fields@) =~= event_text_table(13));
    r
}

fn sound_event() -> (r: EventSpec)
    ensures
        r.type_key@ == "sound"@,
        r.label@ == "音效"@ && r.category@ == "声音"@ && r.color@ == "#facc15"@,
        field_rows(r.fields@) == event_field_table(14),
        field_texts(r.fields@) == event_text_table(14),
        fields_consistent(r.fields@),
{
    let fields = vec![
            FieldSpec::new("soundPath", "音效", FieldKind::Asset).required().asset("sound"),
        ];
    let r = EventSpec { type_key: "sound", label: "音效", category: "声音", color: "#facc15", fields };
    assert(field_rows(r.fields@) =~= event_field_table(14));
    assert(field_texts(r.fields@) =~= event_text_table(14));
    r
}

fn ambient_event() -> (r: EventSpec)
    ensures
        r.type_key@ == "ambient"@,
        r.label@ == "环境音"@ && r.category@ == "声音"@ && r.color@ == "#22d3ee"@,
        field_rows(r.fields@) == event_field_table(15),
        field_texts(r.fields@) == event_text_table(15),
        fields_consistent(r.fields@),
{
    let fields = vec![
            FieldSpec::new("ambientPath", "环境音", FieldKind::Asset).asset("ambient").hint("播放时必填；配合下面的「停止该轨」留空表示停掉全部环境音"),
            FieldSpec::new("volume", "音量", FieldKind::Number).placeholder("100").hint("0–100"),
            FieldSpec::new("loop", "循环", FieldKind::Bool).default_desc("true"),
            FieldSpec::new("stop", "停止该轨", FieldKind::Bool).default_desc("false").hint("开启时会淡出停止；环境音留空则停止全部轨道"),
            FieldSpec::new("fade", "淡入淡出", FieldKind::Bool).default_desc("true"),
        ];
    let r = EventSpec { type_key: "ambient", label: "环境音", category: "声音", color: "#22d3ee", fields };
    assert(field_rows(r.fields@) =~= event_field_table(15));
    assert(field_texts(r.fields@) =~= event_text_table(15));
    r
}

fn unlock_achievement_event() -> (r: EventSpec)
    ensures
        r.type_key@ == "unlock_achievement"@,
        r.label@ == "解锁成就"@ && r.category@ == "成就"@ && r.color@ == "#fbbf24"@,
        field_rows(r.fields@) == event_field_table(16),
        field_texts(r.fields@) == event_text_table(16),
        fields_consistent(r.fields@),
{
    let fields = vec![
            FieldSpec::new("achievement_id", "成就键名", FieldKind::Text).required().placeholder("如：summer_star").hint("给这个成就起的英文标识，不能与内置成就或本剧本其他成就重名（校验器会提示）"),
            FieldSpec::new("title", "成就标题", FieldKind::Text).required().placeholder("如：夏日之星").hint("玩家在成就列表里看到的成就名字"),
            FieldSpec::new("description", "成就描述", FieldKind::Textarea).required().hint("达成条件说明，展示给玩家看"),
        ];
    let r = EventSpec { type_key: "unlock_achievement", label: "解锁成就", category: "成就", color: "#fbbf24", fields };
    assert(field_rows(r.fields@) =~= event_field_table(16));
    assert(field_texts(r.fields@) =~= event_text_table(16));
    r
}

/// What the editor tells authors of the condition syntax.
pub const CONDITION_NOTE: &'static str = "比较是按文字逐个比对的。没赋过值的变量不会正常运作，先用「设置变量」给它赋个值再比较。注意「大于/小于」这类比较不支持：写 hp >= 5 不会报错，但会被当成一个名叫 \"hp >= 5\" 的变量去查，结果不会正常运作。";

/// The label, category and colour of each event type, in the order of
/// `event_type_table`.
pub open spec fn event_look_table() -> Seq<(Seq<char>, Seq<char>, Seq<char>)> {
    seq![("旁白"@, "叙事"@, "#94a3b8"@), ("玩家台词"@, "叙事"@, "#38bdf8"@), ("AI台词"@, "叙事"@, "#a78bfa"@), ("AI 对话"@, "AI"@, "#e879f9"@), ("自由对话"@, "AI"@, "#f472b6"@), ("选项"@, "交互"@, "#818cf8"@), ("等待输入"@, "交互"@, "#60a5fa"@), ("设置变量"@, "流程"@, "#f87171"@), ("章节结束"@, "流程"@, "#e2e8f0"@), ("角色调整"@, "演出"@, "#fbbf24"@), ("背景"@, "演出"@, "#34d399"@), ("背景特效"@, "演出"@, "#2dd4bf"@), ("插图"@, "演出"@, "#a3e635"@), ("背景音乐"@, "声音"@, "#fb923c"@), ("音效"@, "声音"@, "#facc15"@), ("环境音"@, "声音"@, "#22d3ee"@), ("解锁成就"@, "成就"@, "#fbbf24"@)]
}

/// What the editor shows of each event type: label, category and colour.
pub open spec fn event_looks(es: Seq<EventSpec>) -> Seq<(Seq<char>, Seq<char>, Seq<char>)> {
    es.map_values(|e: EventSpec| (e.label@, e.category@, e.color@))
}

/// The key of each unlock-condition type with the rows of its fields.
pub open spec fn unlock_rows(u: Seq<UnlockConditionSpec>) -> Seq<(Seq<char>, Seq<(Seq<char>, bool, FieldKind, bool)>)> {
    u.map_values(|x: UnlockConditionSpec| (x.type_key@, field_rows(x.fields@)))
}

/// The plain values of a list of texts.
pub open spec fn static_texts(v: Seq<&'static str>) -> Seq<Seq<char>> {
    v.map_values(|x: &'static str| x@)
}

/// What the schema says of each action type: its key and the events that accept it.
pub open spec fn action_rows(a: Seq<ActionSpec>) -> Seq<(Seq<char>, Seq<Seq<char>>)> {
    a.map_values(|x: ActionSpec| (x.type_key@, x.allowed_in@.map_values(|s: &'static str| s@)))
}

/// The schema, with the background effects the engine knows (`KNOWN_EFFECTS`
/// of the script engine) as the options of `background_effect`.
pub fn build_schema(known_effects: &[&'static str]) -> (s: ScriptSchema)
    ensures
        event_keys(s.events@) == event_type_table(),
        forall|k: int| 0 <= k < s.events@.len() ==> field_rows(#[trigger] s.events@[k].fields@) == event_field_table(k),
        forall|k: int| 0 <= k < s.events@.len() ==> fields_consistent(#[trigger] s.events@[k].fields@),
        forall|k: int| 0 <= k < s.events@.len() ==> field_texts(#[trigger] s.events@[k].fields@) == event_text_table(k),
        s.events@[8].fields@[0].options@.map_values(|x: String| x@) == seq!["linear"@, "branching"@, "ai_judged"@],
        s.events@[9].fields@[1].options@.map_values(|x: String| x@) == seq!["show_character"@, "hide_character"@],
        s.events@[9].fields@[1].option_labels@.map_values(|x: String| x@) == seq!["show_character（显示角色）"@, "hide_character（隐藏角色）"@],
        field_texts(s.common_fields@) == seq![("触发条件"@, None::<Seq<char>>, None::<Seq<char>>, Some("设置条件后，只有满足条件时本事件才会执行；留空则必定触发"@), None::<Seq<char>>), ("事件间隔（秒）"@, Some("留空或负数 = 等玩家点击"@), None::<Seq<char>>, Some("事件展示后自动等待 N 秒再继续，作为事件之间的 CD；留空或填负数表示等玩家点击后才继续"@), None::<Seq<char>>)],
        field_texts(s.story_config_fields@) == seq![("剧本名"@, None::<Seq<char>>, None::<Seq<char>>, Some("全局唯一，重名会导致其中一个剧本在列表里被覆盖"@), None::<Seq<char>>), ("简介"@, None::<Seq<char>>, None::<Seq<char>>, None::<Seq<char>>, None::<Seq<char>>), ("推荐开始时机"@, Some("例如：好感度达到 30 之后"@), None::<Seq<char>>, Some("展示给玩家看的推荐时机说明，仅作展示，不影响剧情判断"@), None::<Seq<char>>), ("开场章节"@, None::<Seq<char>>, None::<Seq<char>>, None::<Seq<char>>, None::<Seq<char>>)],
        s.events@[11].fields@[0].options@.map_values(|x: String| x@) == effect_options_spec(known_effects@),
        field_rows(s.common_fields@) == seq![("condition"@, false, FieldKind::Condition, true), ("duration"@, false, FieldKind::Number, true)],
        field_rows(s.story_config_fields@) == seq![("script_name"@, true, FieldKind::Text, true), ("description"@, false, FieldKind::Textarea, true),
            ("recommand_start"@, false, FieldKind::Text, true), ("intro_chapter"@, true, FieldKind::Chapter, true)],
        action_rows(s.action_types@) == seq![("add_line"@, seq!["choices"@]), ("set_var"@, seq!["choices"@, "set_variable"@])],
        event_looks(s.events@) == event_look_table(),
        unlock_rows(s.unlock_condition_types@) == seq![
            ("chat_count"@, seq![("threshold"@, true, FieldKind::Number, true)]),
            ("time_range"@, seq![("start_hour"@, true, FieldKind::Number, true), ("end_hour"@, true, FieldKind::Number, true)]),
            ("adventure_completed"@, seq![("adventure_folder"@, true, FieldKind::Text, true)]),
            ("achievement_unlocked"@, seq![("achievement_id"@, true, FieldKind::Text, true)]),
        ],
        static_texts(s.placeholder_fields@) == seq!["text"@, "prompt"@, "hint"@, "end_line"@, "dialog_prompt"@, "end_prompt"@, "content"@, "description"@],
        static_texts(s.condition_syntax.supported@) == seq!["var == 值"@, "var != 值"@, "var（真值判断）"@],
        static_texts(s.condition_syntax.unsupported@) == seq![">"@, "<"@, ">="@, "<="@, "&&"@, "||"@, "!"@, "括号"@, "算术"@],
        s.condition_syntax.note == CONDITION_NOTE,
        s.action_types@.map_values(|a: ActionSpec| (a.label@, a.hint@)) == seq![
            ("追加一句玩家台词"@, "以玩家名义写入对话历史，AI 能看到"@),
            ("设置变量"@, "表达式形如 flag = true / count += 1 / hp -= 5"@),
        ],
        s.unlock_condition_types@.map_values(|u: UnlockConditionSpec| u.label@) == seq![
            "累计聊天条数达到"@, "处于时间段内"@, "已完成某个羁绊冒险"@, "已解锁某个成就"@,
        ],
{
    let events = vec![
        narration_event(),
        player_event(),
        dialogue_event(),
        ai_dialogue_event(),
        free_dialogue_event(),
        choices_event(),
        input_event(),
        set_variable_event(),
        chapter_end_event(),
        modify_character_event(),
        background_event(),
        background_effect_event(known_effects),
        present_pic_event(),
        music_event(),
        sound_event(),
        ambient_event(),
        unlock_achievement_event(),
    ];
    let common_fields = vec![
        FieldSpec::new("condition", "触发条件", FieldKind::Condition)
            .hint("设置条件后，只有满足条件时本事件才会执行；留空则必定触发"),
        FieldSpec::new("duration", "事件间隔（秒）", FieldKind::Number)
            .placeholder("留空或负数 = 等玩家点击")
            .hint("事件展示后自动等待 N 秒再继续，作为事件之间的 CD；留空或填负数表示等玩家点击后才继续"),
    ];
    let story_config_fields = vec![
        FieldSpec::new("script_name", "剧本名", FieldKind::Text)
            .required()
            .hint("全局唯一，重名会导致其中一个剧本在列表里被覆盖"),
        FieldSpec::new("description", "简介", FieldKind::Textarea),
        FieldSpec::new("recommand_start", "推荐开始时机", FieldKind::Text)
            .placeholder("例如：好感度达到 30 之后")
            .hint("展示给玩家看的推荐时机说明，仅作展示，不影响剧情判断"),
        FieldSpec::new("intro_chapter", "开场章节", FieldKind::Chapter).required(),
    ];
    let action_types = vec![
        ActionSpec {
            type_key: "add_line",
            label: "追加一句玩家台词",
            hint: "以玩家名义写入对话历史，AI 能看到",
            allowed_in: vec!["choices"],
        },
        ActionSpec {
            type_key: "set_var",
            label: "设置变量",
            hint: "表达式形如 flag = true / count += 1 / hp -= 5",
            allowed_in: vec!["choices", "set_variable"],
        },
    ];
    let unlock_condition_types = vec![
        UnlockConditionSpec {
            type_key: "chat_count",
            label: "累计聊天条数达到",
            fields: vec![FieldSpec::new("threshold", "条数", FieldKind::Number).required()],
        },
        UnlockConditionSpec {
            type_key: "time_range",
            label: "处于时间段内",
            fields: vec![
                FieldSpec::new("start_hour", "起始小时", FieldKind::Number).required(),
                FieldSpec::new("end_hour", "结束小时", FieldKind::Number)
                    .required()
                    .hint("起始大于结束表示跨零点"),
            ],
        },
        UnlockConditionSpec {
            type_key: "adventure_completed",
            label: "已完成某个羁绊冒险",
            fields: vec![FieldSpec::new("adventure_folder", "剧本目录名", FieldKind::Text)
                .required()
                .hint("填目标剧本的目录名（不是显示名）")],
        },
        UnlockConditionSpec {
            type_key: "achievement_unlocked",
            label: "已解锁某个成就",
            fields: vec![FieldSpec::new("achievement_id", "成就 id", FieldKind::Text).required()],
        },
    ];
    let s = ScriptSchema {
        events,
        common_fields,
        story_config_fields,
        action_types,
        unlock_condition_types,
        placeholder_fields: vec![
            "text",
            "prompt",
            "hint",
            "end_line",
            "dialog_prompt",
            "end_prompt",
            "content",
            "description",
        ],
        condition_syntax: ConditionSyntax {
            supported: vec!["var == 值", "var != 值", "var（真值判断）"],
            unsupported: vec![">", "<", ">=", "<=", "&&", "||", "!", "括号", "算术"],
            note: CONDITION_NOTE,
        },
    };
    proof {
        assert(event_keys(s.events@) =~= event_type_table());
        assert(field_rows(s.common_fields@) =~= seq![("condition"@, false, FieldKind::Condition, true), ("duration"@, false, FieldKind::Number, true)]);
        assert(field_rows(s.story_config_fields@) =~= seq![("script_name"@, true, FieldKind::Text, true), ("description"@, false, FieldKind::Textarea, true),
            ("recommand_start"@, false, FieldKind::Text, true), ("intro_chapter"@, true, FieldKind::Chapter, true)]);
        assert(s.action_types@[0].allowed_in@.map_values(|x: &'static str| x@) =~= seq!["choices"@]);
        assert(s.action_types@[1].allowed_in@.map_values(|x: &'static str| x@) =~= seq!["choices"@, "set_variable"@]);
        assert(action_rows(s.action_types@) =~= seq![("add_line"@, seq!["choices"@]), ("set_var"@, seq!["choices"@, "set_variable"@])]);
        assert(event_looks(s.events@) =~= event_look_table());
        assert(s.action_types@.map_values(|a: ActionSpec| (a.label@, a.hint@)) =~= seq![
            ("追加一句玩家台词"@, "以玩家名义写入对话历史，AI 能看到"@),
            ("设置变量"@, "表达式形如 flag = true / count += 1 / hp -= 5"@),
        ]);
        assert(s.unlock_condition_types@.map_values(|u: UnlockConditionSpec| u.label@) =~= seq![
            "累计聊天条数达到"@, "处于时间段内"@, "已完成某个羁绊冒险"@, "已解锁某个成就"@,
        ]);
        assert(field_texts(s.common_fields@) =~= seq![("触发条件"@, None::<Seq<char>>, None::<Seq<char>>, Some("设置条件后，只有满足条件时本事件才会执行；留空则必定触发"@), None::<Seq<char>>), ("事件间隔（秒）"@, Some("留空或负数 = 等玩家点击"@), None::<Seq<char>>, Some("事件展示后自动等待 N 秒再继续，作为事件之间的 CD；留空或填负数表示等玩家点击后才继续"@), None::<Seq<char>>)]);
        assert(field_texts(s.story_config_fields@) =~= seq![("剧本名"@, None::<Seq<char>>, None::<Seq<char>>, Some("全局唯一，重名会导致其中一个剧本在列表里被覆盖"@), None::<Seq<char>>), ("简介"@, None::<Seq<char>>, None::<Seq<char>>, None::<Seq<char>>, None::<Seq<char>>), ("推荐开始时机"@, Some("例如：好感度达到 30 之后"@), None::<Seq<char>>, Some("展示给玩家看的推荐时机说明，仅作展示，不影响剧情判断"@), None::<Seq<char>>), ("开场章节"@, None::<Seq<char>>, None::<Seq<char>>, None::<Seq<char>>, None::<Seq<char>>)]);
        assert(field_rows(s.unlock_condition_types@[0].fields@) =~= seq![("threshold"@, true, FieldKind::Number, true)]);
        assert(field_rows(s.unlock_condition_types@[1].fields@) =~= seq![("start_hour"@, true, FieldKind::Number, true), ("end_hour"@, true, FieldKind::Number, true)]);
        assert(field_rows(s.unlock_condition_types@[2].fields@) =~= seq![("adventure_folder"@, true, FieldKind::Text, true)]);
        assert(field_rows(s.unlock_condition_types@[3].fields@) =~= seq![("achievement_id"@, true, FieldKind::Text, true)]);
        assert(unlock_rows(s.unlock_condition_types@) =~= seq![
            ("chat_count"@, seq![("threshold"@, true, FieldKind::Number, true)]),
            ("time_range"@, seq![("start_hour"@, true, FieldKind::Number, true), ("end_hour"@, true, FieldKind::Number, true)]),
            ("adventure_completed"@, seq![("adventure_folder"@, true, FieldKind::Text, true)]),
            ("achievement_unlocked"@, seq![("achievement_id"@, true, FieldKind::Text, true)]),
        ]);
        assert(static_texts(s.placeholder_fields@) =~= seq!["text"@, "prompt"@, "hint"@, "end_line"@, "dialog_prompt"@, "end_prompt"@, "content"@, "description"@]);
        assert(static_texts(s.condition_syntax.supported@) =~= seq!["var == 值"@, "var != 值"@, "var（真值判断）"@]);
        assert(static_texts(s.condition_syntax.unsupported@) =~= seq![">"@, "<"@, ">="@, "<="@, "&&"@, "||"@, "!"@, "括号"@, "算术"@]);
    }
    s
}

} // verus!
