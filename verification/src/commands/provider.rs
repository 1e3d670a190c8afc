//! Provider connection checks: reading model lists out of the many response
//! shapes that model APIs use, keeping chat models, and the answer given for
//! each outcome of a connection test.
use vstd::prelude::*;
use crate::commands::chat::AppError;
use crate::json::{array_items, items_view, json_array_items, opt_items_view, JsonItem};
use crate::text::{
    append_chars, append_str, byte_len, contains_seq, cut_at_bytes, cut_str_at_bytes,
    prefix_chars_for_bytes, str_contains, string_from_chars, views,
};

verus! {

/// The `id` strings of array elements, in order; elements without one are
/// skipped.
pub open spec fn ids_of(items: Seq<(Option<Seq<char>>, Option<Seq<char>>)>) -> Seq<Seq<char>>
    decreases items.len(),
{
    if items.len() == 0 {
        Seq::empty()
    } else {
        let p = ids_of(items.drop_last());
        match items.last().0 {
            Some(s) => p.push(s),
            None => p,
        }
    }
}

/// The array elements that are strings, in order.
pub open spec fn texts_of(items: Seq<(Option<Seq<char>>, Option<Seq<char>>)>) -> Seq<Seq<char>>
    decreases items.len(),
{
    if items.len() == 0 {
        Seq::empty()
    } else {
        let p = texts_of(items.drop_last());
        match items.last().1 {
            Some(s) => p.push(s),
            None => p,
        }
    }
}

/// The ids of an array that is there (none when it is not).
pub open spec fn opt_ids(o: Option<Seq<(Option<Seq<char>>, Option<Seq<char>>)>>) -> Seq<Seq<char>> {
    match o {
        Some(items) => ids_of(items),
        None => Seq::empty(),
    }
}

/// The ids of an array that is there, or else its string elements.
pub open spec fn opt_ids_or_texts(o: Option<Seq<(Option<Seq<char>>, Option<Seq<char>>)>>) -> Seq<Seq<char>> {
    match o {
        Some(items) => if ids_of(items).len() > 0 { ids_of(items) } else { texts_of(items) },
        None => Seq::empty(),
    }
}

/// The model list of a response, taken from the first shape that yields a
/// name: `data[].id`; `models[].id` or `models[]` strings; a root array of
/// objects or strings; `result[].id`; `body.data[].id`. Empty when none does.
pub open spec fn model_list(
    data: Option<Seq<(Option<Seq<char>>, Option<Seq<char>>)>>,
    models: Option<Seq<(Option<Seq<char>>, Option<Seq<char>>)>>,
    root: Option<Seq<(Option<Seq<char>>, Option<Seq<char>>)>>,
    result: Option<Seq<(Option<Seq<char>>, Option<Seq<char>>)>>,
    body_data: Option<Seq<(Option<Seq<char>>, Option<Seq<char>>)>>,
) -> Seq<Seq<char>> {
    if opt_ids(data).len() > 0 {
        opt_ids(data)
    } else if opt_ids_or_texts(models).len() > 0 {
        opt_ids_or_texts(models)
    } else if opt_ids_or_texts(root).len() > 0 {
        opt_ids_or_texts(root)
    } else if opt_ids(result).len() > 0 {
        opt_ids(result)
    } else {
        opt_ids(body_data)
    }
}

/// The model list read out of the JSON text of a response.
pub open spec fn response_models(json: Seq<char>) -> Seq<Seq<char>> {
    model_list(
        json_array_items(json, "/data"@),
        json_array_items(json, "/models"@),
        json_array_items(json, ""@),
        json_array_items(json, "/result"@),
        json_array_items(json, "/body/data"@),
    )
}

/// The `id` strings of array elements.
pub fn item_ids(items: &Vec<JsonItem>) -> (r: Vec<String>)
    ensures
        views(r@) == ids_of(items_view(items@)),
{
    let ghost iv = items_view(items@);
    let mut out: Vec<String> = Vec::new();
    let n = items.len();
    let mut i: usize = 0;
    while i < n
        invariant
            n == items.len(),
            i <= n,
            iv == items_view(items@),
            views(out@) == ids_of(iv.take(i as int)),
        decreases n - i,
    {
        proof {
            assert(iv.take(i + 1).drop_last() =~= iv.take(i as int));
        }
        match &items[i].id {
            Some(s) => {
                let ghost before = out@;
                out.push(s.clone());
                assert(views(out@) =~= views(before).push(s@));
            },
            None => {},
        }
        i = i + 1;
    }
    assert(iv.take(n as int) =~= iv);
    out
}

/// The array elements that are strings.
pub fn item_texts(items: &Vec<JsonItem>) -> (r: Vec<String>)
    ensures
        views(r@) == texts_of(items_view(items@)),
{
    let ghost iv = items_view(items@);
    let mut out: Vec<String> = Vec::new();
    let n = items.len();
    let mut i: usize = 0;
    while i < n
        invariant
            n == items.len(),
            i <= n,
            iv == items_view(items@),
            views(out@) == texts_of(iv.take(i as int)),
        decreases n - i,
    {
        proof {
            assert(iv.take(i + 1).drop_last() =~= iv.take(i as int));
        }
        match &items[i].text {
            Some(s) => {
                let ghost before = out@;
                out.push(s.clone());
                assert(views(out@) =~= views(before).push(s@));
            },
            None => {},
        }
        i = i + 1;
    }
    assert(iv.take(n as int) =~= iv);
    out
}

fn opt_item_ids(o: &Option<Vec<JsonItem>>) -> (r: Vec<String>)
    ensures
        views(r@) == opt_ids(opt_items_view(*o)),
{
    match o {
        Some(items) => item_ids(items),
        None => {
            let v: Vec<String> = Vec::new();
            assert(views(v@) =~= Seq::<Seq<char>>::empty());
            v
        },
    }
}

fn opt_item_ids_or_texts(o: &Option<Vec<JsonItem>>) -> (r: Vec<String>)
    ensures
        views(r@) == opt_ids_or_texts(opt_items_view(*o)),
{
    match o {
        Some(items) => {
            let ids = item_ids(items);
            if ids.len() > 0 {
                ids
            } else {
                item_texts(items)
            }
        },
        None => {
            let v: Vec<String> = Vec::new();
            assert(views(v@) =~= Seq::<Seq<char>>::empty());
            v
        },
    }
}

/// Picks the model list out of the arrays of the five response shapes, in
/// their order of preference.
pub fn select_model_ids(
    data: Option<Vec<JsonItem>>,
    models: Option<Vec<JsonItem>>,
    root: Option<Vec<JsonItem>>,
    result: Option<Vec<JsonItem>>,
    body_data: Option<Vec<JsonItem>>,
) -> (r: Vec<String>)
    ensures
        views(r@) == model_list(
            opt_items_view(data),
            opt_items_view(models),
            opt_items_view(root),
            opt_items_view(result),
            opt_items_view(body_data),
        ),
{
    let a = opt_item_ids(&data);
    if a.len() > 0 {
        return a;
    }
    let b = opt_item_ids_or_texts(&models);
    if b.len() > 0 {
        return b;
    }
    let c = opt_item_ids_or_texts(&root);
    if c.len() > 0 {
        return c;
    }
    let d = opt_item_ids(&result);
    if d.len() > 0 {
        return d;
    }
    opt_item_ids(&body_data)
}

/// The model names listed in the JSON text of a model-list response.
pub fn parse_model_list(json: &str) -> (r: Vec<String>)
    ensures
        views(r@) == response_models(json@),
{
    let data = array_items(json, "/data");
    let models = array_items(json, "/models");
    let root = array_items(json, "");
    let result = array_items(json, "/result");
    let body_data = array_items(json, "/body/data");
    select_model_ids(data, models, root, result, body_data)
}

/// A model for chat: none of the markers of speech, image, embedding or
/// moderation models occurs in its id.
pub open spec fn is_chat_model_id(id: Seq<char>) -> bool {
    &&& !contains_seq(id, "whisper"@)
    &&& !contains_seq(id, "tts"@)
    &&& !contains_seq(id, "dall-e"@)
    &&& !contains_seq(id, "embedding"@)
    &&& !contains_seq(id, "moderation"@)
}

/// The chat models among `ids`, in order.
pub open spec fn chat_only(ids: Seq<Seq<char>>) -> Seq<Seq<char>>
    decreases ids.len(),
{
    if ids.len() == 0 {
        Seq::empty()
    } else {
        let p = chat_only(ids.drop_last());
        if is_chat_model_id(ids.last()) {
            p.push(ids.last())
        } else {
            p
        }
    }
}

/// Whether `id` names a chat model.
pub fn is_chat_model(id: &str) -> (b: bool)
    ensures
        b == is_chat_model_id(id@),
{
    !str_contains(id, "whisper") && !str_contains(id, "tts") && !str_contains(id, "dall-e")
        && !str_contains(id, "embedding") && !str_contains(id, "moderation")
}

/// Keeps the chat models.
pub fn chat_models(models: Vec<String>) -> (r: Vec<String>)
    ensures
        views(r@) == chat_only(views(models@)),
{
    let ghost mv = views(models@);
    let mut out: Vec<String> = Vec::new();
    let n = models.len();
    let mut i: usize = 0;
    while i < n
        invariant
            n == models.len(),
            i <= n,
            mv == views(models@),
            views(out@) == chat_only(mv.take(i as int)),
        decreases n - i,
    {
        proof {
            assert(mv.take(i + 1).drop_last() =~= mv.take(i as int));
            assert(mv[i as int] == models@[i as int]@);
        }
        if is_chat_model(models[i].as_str()) {
            let ghost before = out@;
            out.push(models[i].clone());
            assert(views(out@) =~= views(before).push(models@[i as int]@));
        }
        i = i + 1;
    }
    assert(mv.take(n as int) =~= mv);
    out
}

/// The message when no chat model was found, quoting the start of the
/// response.
pub open spec fn no_models_message(preview: Seq<char>) -> Seq<char> {
    "未找到可用模型，API 返回格式可能不标准。\n\n返回内容: "@ + preview
        + "\n\n请手动在模型列表中输入模型名称，或检查 Base URL 是否正确。"@
}

/// The answer of a connection test of an OpenAI-compatible API, from the
/// model list read out of the response and the response as compact JSON: the
/// chat models, or, when there are none, an error quoting the first 200 bytes
/// of the response (that cut must fall on a character boundary).
pub fn listed_models_outcome(models: Vec<String>, compact_body: &str) -> (r: Result<Vec<String>, String>)
    requires
        byte_len(compact_body@) > 200 ==> prefix_chars_for_bytes(compact_body@, 200) is Some,
    ensures
        chat_only(views(models@)).len() > 0 ==> (r matches Ok(v) && views(v@) == chat_only(views(models@))),
        chat_only(views(models@)).len() == 0 ==> (r matches Err(e) && e@ == no_models_message(cut_at_bytes(compact_body@, 200))),
{
    let kept = chat_models(models);
    if kept.len() > 0 {
        return Ok(kept);
    }
    let preview = cut_str_at_bytes(compact_body, 200);
    let mut out: Vec<char> = Vec::new();
    append_str(&mut out, "未找到可用模型，API 返回格式可能不标准。\n\n返回内容: ");
    append_chars(&mut out, &preview);
    append_str(&mut out, "\n\n请手动在模型列表中输入模型名称，或检查 Base URL 是否正确。");
    Err(string_from_chars(&out))
}

/// The kinds of provider that a connection test knows.
#[derive(Debug, Clone, Copy, PartialEq, Eq, Structural)]
pub enum ConnectionKind {
    OpenAiCompat,
    Anthropic,
}

/// The kind named by a provider type: `openai-compat` or `anthropic`, any
/// other name is refused.
pub fn connection_kind(provider_type: &str) -> (r: Result<ConnectionKind, String>)
    ensures
        provider_type@ == "openai-compat"@ ==> r == Ok::<ConnectionKind, String>(ConnectionKind::OpenAiCompat),
        provider_type@ == "anthropic"@ ==> r == Ok::<ConnectionKind, String>(ConnectionKind::Anthropic),
        provider_type@ != "openai-compat"@ && provider_type@ != "anthropic"@ ==> (r matches Err(e)
            && e@ == "不支持的 Provider 类型: "@ + provider_type@),
{
    proof {
        reveal_strlit("openai-compat");
        reveal_strlit("anthropic");
        assert("openai-compat"@[0] != "anthropic"@[0]);
    }
    if crate::agent::str_equal(provider_type, "openai-compat") {
        Ok(ConnectionKind::OpenAiCompat)
    } else if crate::agent::str_equal(provider_type, "anthropic") {
        Ok(ConnectionKind::Anthropic)
    } else {
        let mut out: Vec<char> = Vec::new();
        append_str(&mut out, "不支持的 Provider 类型: ");
        append_str(&mut out, provider_type);
        Err(string_from_chars(&out))
    }
}

/// The answer of an Anthropic key check from the status of the probe
/// request (its code, its status line and its body): the preset models
/// (the API lists none) on a success (2xx), a key error on 401, the status
/// and body otherwise.
pub fn anthropic_check_outcome(status: u16, status_line: &str, body: &str, presets: Vec<String>) -> (r: Result<Vec<String>, String>)
    ensures
        200 <= status <= 299 ==> r == Ok::<Vec<String>, String>(presets),
        status == 401 ==> (r matches Err(e) && e@ == "API Key 无效。请检查您的 Anthropic API Key 是否正确。"@),
        !(200 <= status <= 299) && status != 401 ==> (r matches Err(e)
            && e@ == "HTTP "@ + status_line@ + ": "@ + body@ + "。请检查 API Key 和网络连接。"@),
{
    if 200 <= status && status <= 299 {
        return Ok(presets);
    }
    if status == 401 {
        return Err("API Key 无效。请检查您的 Anthropic API Key 是否正确。".to_owned());
    }
    let mut out: Vec<char> = Vec::new();
    append_str(&mut out, "HTTP ");
    append_str(&mut out, status_line);
    append_str(&mut out, ": ");
    append_str(&mut out, body);
    append_str(&mut out, "。请检查 API Key 和网络连接。");
    Err(string_from_chars(&out))
}

/// The error of a model-list request that the API refused.
pub fn fetch_api_error(body: &str) -> (e: AppError)
    ensures
        e matches AppError::Api(m) && m@ == "API 错误: "@ + body@,
{
    let mut out: Vec<char> = Vec::new();
    append_str(&mut out, "API 错误: ");
    append_str(&mut out, body);
    AppError::Api(string_from_chars(&out))
}

/// The models of a model-list response from its `data` array: the ids, or a
/// parse error when the array is missing.
pub fn models_from_data(data: Option<Vec<JsonItem>>) -> (r: Result<Vec<String>, AppError>)
    ensures
        data is None ==> (r matches Err(AppError::Parse(m)) && m@ == "响应格式错误: 未找到 data 字段"@),
        data matches Some(items) ==> (r matches Ok(v) && views(v@) == ids_of(items_view(items@))),
{
    match data {
        Some(items) => Ok(item_ids(&items)),
        None => Err(AppError::Parse("响应格式错误: 未找到 data 字段".to_owned())),
    }
}

/// The models listed under `data` in the JSON text of a model-list response.
pub fn fetch_models_from(json: &str) -> (r: Result<Vec<String>, AppError>)
    ensures
        json_array_items(json@, "/data"@) is None ==> (r matches Err(AppError::Parse(m))
            && m@ == "响应格式错误: 未找到 data 字段"@),
        json_array_items(json@, "/data"@) matches Some(items) ==> (r matches Ok(v) && views(v@) == ids_of(items)),
{
    models_from_data(array_items(json, "/data"))
}

} // verus!
