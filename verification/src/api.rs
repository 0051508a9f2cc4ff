//! The JSON document that the answers API serves.
use vstd::prelude::*;

use crate::answer::{answers_for, content_html_of, renders, title_html_of, Answer};
use crate::decimal::decimal_text;
use crate::json::{json_text_of, json_to_string, json_view, Json, JsonValue};
use crate::models::Post;

verus! {

/// An answer's fields in order: id, title, title HTML, "as of" label,
/// content, content HTML, and whether it is answered.
pub type AnswerRow = (Seq<char>, Seq<char>, Seq<char>, Seq<char>, Seq<char>, Seq<char>, bool);

pub open spec fn answer_row(a: Answer) -> AnswerRow {
    (a.id@, a.title@, a.title_html@, a.asof@, a.content@, a.content_html@, a.answered)
}

pub open spec fn answer_rows(answers: Seq<Answer>) -> Seq<AnswerRow> {
    answers.map_values(|a: Answer| answer_row(a))
}

pub open spec fn post_rows(posts: Seq<Post>) -> Seq<AnswerRow> {
    posts.map_values(|p: Post| post_row(p))
}

/// The row of the answer that `post` renders to, where it renders.
pub open spec fn post_row(post: Post) -> AnswerRow {
    (
        decimal_text(post.id as int),
        post.title@,
        title_html_of(post.title@),
        post.asof@,
        post.content@,
        content_html_of(post.content@).unwrap(),
        post.published,
    )
}

/// The API object of an answer: its "as of" label, id, title, title HTML,
/// content, content HTML and whether it is answered.
pub open spec fn row_json(row: AnswerRow) -> JsonValue {
    JsonValue::Object(
        seq![
            ("asof"@, JsonValue::Str(row.3)),
            ("id"@, JsonValue::Str(row.0)),
            ("title"@, JsonValue::Str(row.1)),
            ("title_html"@, JsonValue::Str(row.2)),
            ("content"@, JsonValue::Str(row.4)),
            ("content_html"@, JsonValue::Str(row.5)),
            ("answered"@, JsonValue::Bool(row.6)),
        ],
    )
}

/// The API document: the answers, and whether the visitor is signed in.
pub open spec fn document_json(rows: Seq<AnswerRow>, logged_in: bool) -> JsonValue {
    JsonValue::Object(
        seq![
            ("answers"@, JsonValue::Array(rows.map_values(|row: AnswerRow| row_json(row)))),
            ("logged_in"@, JsonValue::Bool(logged_in)),
        ],
    )
}

fn text_member(key: &str, value: &String) -> (r: (String, Json))
    ensures
        r.0@ == key@,
        json_view(r.1) == JsonValue::Str(value@),
{
    (key.to_owned(), Json::Str(value.clone()))
}

impl Answer {
    /// The answer as the API serves it.
    pub fn to_api(&self) -> (j: Json)
        ensures
            j@ == row_json(answer_row(*self)),
    {
        let mut members: Vec<(String, Json)> = Vec::new();
        members.push(text_member("asof", &self.asof));
        members.push(text_member("id", &self.id));
        members.push(text_member("title", &self.title));
        members.push(text_member("title_html", &self.title_html));
        members.push(text_member("content", &self.content));
        members.push(text_member("content_html", &self.content_html));
        members.push(("answered".to_owned(), Json::Bool(self.answered)));
        let ghost m = members@;
        let j = Json::Object(members);
        assert(json_view(m[6].1) == JsonValue::Bool(self.answered));
        assert(json_view(j)->Object_0 =~= row_json(answer_row(*self))->Object_0);
        assert(j@ =~= row_json(answer_row(*self)));
        j
    }
}

/// The API document for `answers`, for a visitor who is signed in or not.
pub fn answers_document(answers: &Vec<Answer>, logged_in: bool) -> (j: Json)
    ensures
        j@ == document_json(answer_rows(answers@), logged_in),
{
    let mut items: Vec<Json> = Vec::new();
    let mut k: usize = 0;
    while k < answers.len()
        invariant
            k <= answers.len(),
            items.len() == k,
            forall|m: int|
                0 <= m < k ==> json_view(#[trigger] items@[m]) == row_json(answer_row(answers@[m])),
        decreases answers.len() - k,
    {
        let item = answers[k].to_api();
        items.push(item);
        assert(items@[k as int] == item);
        k = k + 1;
    }
    let ghost item_seq = items@;
    let list = Json::Array(items);
    let ghost listed = answer_rows(answers@).map_values(|row: AnswerRow| row_json(row));
    assert(json_view(list)->Array_0 =~= listed) by {
        assert forall|m: int| 0 <= m < listed.len() implies json_view(list)->Array_0[m]
            == listed[m] by {
            assert(json_view(item_seq[m]) == row_json(answer_row(answers@[m])));
        }
    }
    assert(json_view(list) == JsonValue::Array(listed));
    let mut members: Vec<(String, Json)> = Vec::new();
    members.push(("answers".to_owned(), list));
    members.push(("logged_in".to_owned(), Json::Bool(logged_in)));
    let ghost m = members@;
    let j = Json::Object(members);
    assert(json_view(m[1].1) == JsonValue::Bool(logged_in));
    assert(json_view(j)->Object_0 =~= document_json(answer_rows(answers@), logged_in)->Object_0);
    assert(j@ =~= document_json(answer_rows(answers@), logged_in));
    j
}

/// The body of the answers API for `posts`, for a visitor who is signed in
/// or not.  `None` where some post cannot be rendered.
pub fn api_answers_body(posts: &Vec<Post>, logged_in: bool) -> (r: Option<String>)
    ensures
        match r {
            Some(body) => (forall|k: int|
                0 <= k < posts.len() ==> (#[trigger] content_html_of(posts@[k].content@)) is Some)
                && body@ == json_text_of(
                document_json(post_rows(posts@), logged_in),
            ),
            None => exists|k: int|
                0 <= k < posts.len() && (#[trigger] content_html_of(posts@[k].content@)) is None,
        },
{
    let answers = match answers_for(posts) {
        Some(answers) => answers,
        None => return None,
    };
    assert forall|k: int| 0 <= k < posts.len() implies (#[trigger] content_html_of(
        posts@[k].content@,
    )) is Some by {
        assert(renders(answers@[k], posts@[k]));
    }
    assert(answer_rows(answers@) =~= post_rows(posts@)) by {
        assert forall|k: int| 0 <= k < posts.len() implies #[trigger] answer_rows(answers@)[k]
            == post_rows(posts@)[k] by {
            assert(renders(answers@[k], posts@[k]));
        }
    }
    let document = answers_document(&answers, logged_in);
    Some(json_to_string(&document))
}

/// The API document has two members: `answers`, an array whose k-th entry
/// is the API object of the k-th answer, and `logged_in`.
pub proof fn law_document_lists_each_answer(rows: Seq<AnswerRow>, logged_in: bool, k: int)
    requires
        0 <= k < rows.len(),
    ensures
        document_json(rows, logged_in) is Object,
        document_json(rows, logged_in)->Object_0.len() == 2,
        document_json(rows, logged_in)->Object_0[0].0 == "answers"@,
        document_json(rows, logged_in)->Object_0[0].1 is Array,
        document_json(rows, logged_in)->Object_0[0].1->Array_0.len() == rows.len(),
        document_json(rows, logged_in)->Object_0[0].1->Array_0[k] == row_json(rows[k]),
        document_json(rows, logged_in)->Object_0[1] == ("logged_in"@, JsonValue::Bool(logged_in)),
{
}

/// The API object of an answer holds, in this order, its "as of" label, id,
/// title, title HTML, content and content HTML as strings, and whether it is
/// answered as a boolean.
pub proof fn law_api_object_fields(a: Answer)
    ensures
        row_json(answer_row(a)) == JsonValue::Object(
            seq![
                ("asof"@, JsonValue::Str(a.asof@)),
                ("id"@, JsonValue::Str(a.id@)),
                ("title"@, JsonValue::Str(a.title@)),
                ("title_html"@, JsonValue::Str(a.title_html@)),
                ("content"@, JsonValue::Str(a.content@)),
                ("content_html"@, JsonValue::Str(a.content_html@)),
                ("answered"@, JsonValue::Bool(a.answered)),
            ],
        ),
{
}

/// The body that the API serves for `posts` lists, at each position, the
/// API object of the answer rendered from the post at that position.
pub proof fn law_body_lists_posts_in_order(posts: Seq<Post>, logged_in: bool, k: int)
    requires
        0 <= k < posts.len(),
    ensures
        document_json(post_rows(posts), logged_in)->Object_0[0].1->Array_0.len() == posts.len(),
        document_json(post_rows(posts), logged_in)->Object_0[0].1->Array_0[k] == row_json(
            post_row(posts[k]),
        ),
{
    law_document_lists_each_answer(post_rows(posts), logged_in, k);
}

} // verus!
