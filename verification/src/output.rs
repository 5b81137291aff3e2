//! What Gaia prints once a server runs: the summary box and the client
//! snippets. The caller prints each line.

use vstd::prelude::*;

use crate::selector::compacted;
use crate::text::{chars_of, push_str, string_of, sub_chars, views};

verus! {

/// `s` padded with spaces to `width` characters (unchanged when longer).
pub open spec fn padded(s: Seq<char>, width: nat) -> Seq<char> {
    if s.len() >= width {
        s
    } else {
        s + Seq::new((width - s.len()) as nat, |i: int| ' ')
    }
}

pub(crate) fn pad_to(s: &str, width: usize) -> (r: String)
    ensures
        r@ == padded(s@, width as nat),
{
    let n = chars_of(s).len();
    let mut r = s.to_owned();
    if n >= width {
        return r;
    }
    let mut k: usize = n;
    while k < width
        invariant
            n <= k <= width,
            n == s@.len(),
            r@ == s@ + Seq::new((k - n) as nat, |i: int| ' '),
        decreases width - k,
    {
        r.push(' ');
        k = k + 1;
        assert(r@ =~= s@ + Seq::new((k - n) as nat, |i: int| ' '));
    }
    r
}

/// A value shortened to `width` characters (the end replaced by `...`)
/// and padded to that width.
pub open spec fn fitted(value: Seq<char>, width: nat) -> Seq<char> {
    padded(compacted(value, width), width)
}

pub fn truncate(value: &str, width: usize) -> (r: String)
    ensures
        r@ == fitted(value@, width as nat),
{
    let short = crate::selector::compact_model_name(value, width);
    pad_to(short.as_str(), width)
}

/// A secret as shown: its first and last three characters, `***` between
/// (only `***` when it has six characters or fewer).
pub open spec fn masked(secret: Seq<char>) -> Seq<char> {
    if secret.len() <= 6 {
        "***"@
    } else {
        secret.take(3) + "***"@ + secret.skip(secret.len() - 3)
    }
}

pub fn mask_secret(secret: &str) -> (r: String)
    ensures
        r@ == masked(secret@),
{
    let v = chars_of(secret);
    if v.len() <= 6 {
        return "***".to_owned();
    }
    let mut r = string_of(&sub_chars(&v, 0, 3));
    push_str(&mut r, "***");
    push_str(&mut r, string_of(&sub_chars(&v, v.len() - 3, v.len())).as_str());
    assert(v@.subrange(0, 3) =~= v@.take(3));
    assert(v@.subrange(v.len() - 3, v.len() as int) =~= v@.skip(v.len() - 3));
    r
}

pub open spec fn summary_rule() -> Seq<char> {
    "+-------------------------------------------------------------+"@
}

/// The summary box: backend, model, base URL, chat endpoint and the
/// masked key, each in a 43-character column.
pub open spec fn summary_lines(backend: Seq<char>, model_id: Seq<char>, api_base: Seq<char>, api_key: Seq<char>) -> Seq<Seq<char>> {
    seq![
        Seq::<char>::empty(),
        summary_rule(),
        "| Your LLM server is running                                  |"@,
        summary_rule(),
        "| Backend:        "@ + padded(backend, 43) + "|"@,
        "| Model:          "@ + fitted(model_id, 43) + "|"@,
        "| API base URL:   "@ + fitted(api_base, 43) + "|"@,
        "| Chat endpoint:  "@ + fitted(api_base + "/chat/completions"@, 43) + "|"@,
        "| API key:        "@ + fitted(masked(api_key), 43) + "|"@,
        summary_rule(),
    ]
}

fn boxed(label: &str, value: &str) -> (r: String)
    ensures
        r@ == label@ + value@ + "|"@,
{
    let mut l = label.to_owned();
    push_str(&mut l, value);
    push_str(&mut l, "|");
    l
}

pub fn final_summary(backend: &str, model_id: &str, api_base: &str, api_key: &str) -> (r: Vec<String>)
    ensures
        views(r@) == summary_lines(backend@, model_id@, api_base@, api_key@),
{
    let mut chat = api_base.to_owned();
    push_str(&mut chat, "/chat/completions");
    let masked_key = mask_secret(api_key);
    let rule = "+-------------------------------------------------------------+";
    let mut lines: Vec<String> = Vec::new();
    lines.push(String::new());
    lines.push(rule.to_owned());
    lines.push("| Your LLM server is running                                  |".to_owned());
    lines.push(rule.to_owned());
    lines.push(boxed("| Backend:        ", pad_to(backend, 43).as_str()));
    lines.push(boxed("| Model:          ", truncate(model_id, 43).as_str()));
    lines.push(boxed("| API base URL:   ", truncate(api_base, 43).as_str()));
    lines.push(boxed("| Chat endpoint:  ", truncate(chat.as_str(), 43).as_str()));
    lines.push(boxed("| API key:        ", truncate(masked_key.as_str(), 43).as_str()));
    lines.push(rule.to_owned());
    assert(views(lines@) =~= summary_lines(backend@, model_id@, api_base@, api_key@));
    lines
}

/// The lines showing how to connect an OpenAI client (Python, JavaScript,
/// curl) to the server; the key is read from `GAIA_API_KEY`.
pub open spec fn connection_lines(api_base: Seq<char>, model_id: Seq<char>) -> Seq<Seq<char>> {
    seq![
        Seq::<char>::empty(),
        "Use this to connect your agent or app:"@,
        "(set GAIA_API_KEY in your environment first)"@,
        Seq::<char>::empty(),
        "Python:"@,
        Seq::<char>::empty(),
        "import os"@,
        "from openai import OpenAI"@,
        Seq::<char>::empty(),
        "client = OpenAI("@,
        "    base_url=\""@ + api_base + "\","@,
        "    api_key=os.environ[\"GAIA_API_KEY\"],"@,
        ")"@,
        Seq::<char>::empty(),
        "response = client.chat.completions.create("@,
        "    model=\""@ + model_id + "\","@,
        "    messages=["@,
        "        {\"role\": \"user\", \"content\": \"Hello!\"}"@,
        "    ],"@,
        ")"@,
        Seq::<char>::empty(),
        "print(response.choices[0].message.content)"@,
        Seq::<char>::empty(),
        "JavaScript:"@,
        Seq::<char>::empty(),
        "import OpenAI from \"openai\";"@,
        Seq::<char>::empty(),
        "const client = new OpenAI({"@,
        "  baseURL: \""@ + api_base + "\","@,
        "  apiKey: process.env.GAIA_API_KEY,"@,
        "});"@,
        Seq::<char>::empty(),
        "const response = await client.chat.completions.create({"@,
        "  model: \""@ + model_id + "\","@,
        "  messages: [{ role: \"user\", content: \"Hello!\" }],"@,
        "});"@,
        Seq::<char>::empty(),
        "console.log(response.choices[0].message.content);"@,
        Seq::<char>::empty(),
        "curl:"@,
        Seq::<char>::empty(),
        "curl -sS -X POST \""@ + api_base + "/chat/completions\" \\\n  -H \"Authorization: Bearer $GAIA_API_KEY\" \\\n  -H \"Content-Type: application/json\" \\\n  -d '{\"model\":\""@ + model_id + "\",\"messages\":[{\"role\":\"user\",\"content\":\"Hello!\"}],\"temperature\":0.7,\"stream\":false}'"@,
    ]
}

pub fn connection_examples(api_base: &str, model_id: &str) -> (r: Vec<String>)
    ensures
        views(r@) == connection_lines(api_base@, model_id@),
{
    let mut lines: Vec<String> = Vec::new();
    lines.push(String::new());
    {
        let mut l = String::new();
        push_str(&mut l, "Use this to connect your agent or app:");
        lines.push(l);
    }
    {
        let mut l = String::new();
        push_str(&mut l, "(set GAIA_API_KEY in your environment first)");
        lines.push(l);
    }
    lines.push(String::new());
    {
        let mut l = String::new();
        push_str(&mut l, "Python:");
        lines.push(l);
    }
    lines.push(String::new());
    {
        let mut l = String::new();
        push_str(&mut l, "import os");
        lines.push(l);
    }
    {
        let mut l = String::new();
        push_str(&mut l, "from openai import OpenAI");
        lines.push(l);
    }
    lines.push(String::new());
    {
        let mut l = String::new();
        push_str(&mut l, "client = OpenAI(");
        lines.push(l);
    }
    {
        let mut l = String::new();
        push_str(&mut l, "    base_url=\"");
        push_str(&mut l, api_base);
        push_str(&mut l, "\",");
        lines.push(l);
    }
    {
        let mut l = String::new();
        push_str(&mut l, "    api_key=os.environ[\"GAIA_API_KEY\"],");
        lines.push(l);
    }
    {
        let mut l = String::new();
        push_str(&mut l, ")");
        lines.push(l);
    }
    lines.push(String::new());
    {
        let mut l = String::new();
        push_str(&mut l, "response = client.chat.completions.create(");
        lines.push(l);
    }
    {
        let mut l = String::new();
        push_str(&mut l, "    model=\"");
        push_str(&mut l, model_id);
        push_str(&mut l, "\",");
        lines.push(l);
    }
    {
        let mut l = String::new();
        push_str(&mut l, "    messages=[");
        lines.push(l);
    }
    {
        let mut l = String::new();
        push_str(&mut l, "        {\"role\": \"user\", \"content\": \"Hello!\"}");
        lines.push(l);
    }
    {
        let mut l = String::new();
        push_str(&mut l, "    ],");
        lines.push(l);
    }
    {
        let mut l = String::new();
        push_str(&mut l, ")");
        lines.push(l);
    }
    lines.push(String::new());
    {
        let mut l = String::new();
        push_str(&mut l, "print(response.choices[0].message.content)");
        lines.push(l);
    }
    lines.push(String::new());
    {
        let mut l = String::new();
        push_str(&mut l, "JavaScript:");
        lines.push(l);
    }
    lines.push(String::new());
    {
        let mut l = String::new();
        push_str(&mut l, "import OpenAI from \"openai\";");
        lines.push(l);
    }
    lines.push(String::new());
    {
        let mut l = String::new();
        push_str(&mut l, "const client = new OpenAI({");
        lines.push(l);
    }
    {
        let mut l = String::new();
        push_str(&mut l, "  baseURL: \"");
        push_str(&mut l, api_base);
        push_str(&mut l, "\",");
        lines.push(l);
    }
    {
        let mut l = String::new();
        push_str(&mut l, "  apiKey: process.env.GAIA_API_KEY,");
        lines.push(l);
    }
    {
        let mut l = String::new();
        push_str(&mut l, "});");
        lines.push(l);
    }
    lines.push(String::new());
    {
        let mut l = String::new();
        push_str(&mut l, "const response = await client.chat.completions.create({");
        lines.push(l);
    }
    {
        let mut l = String::new();
        push_str(&mut l, "  model: \"");
        push_str(&mut l, model_id);
        push_str(&mut l, "\",");
        lines.push(l);
    }
    {
        let mut l = String::new();
        push_str(&mut l, "  messages: [{ role: \"user\", content: \"Hello!\" }],");
        lines.push(l);
    }
    {
        let mut l = String::new();
        push_str(&mut l, "});");
        lines.push(l);
    }
    lines.push(String::new());
    {
        let mut l = String::new();
        push_str(&mut l, "console.log(response.choices[0].message.content);");
        lines.push(l);
    }
    lines.push(String::new());
    {
        let mut l = String::new();
        push_str(&mut l, "curl:");
        lines.push(l);
    }
    lines.push(String::new());
    {
        let mut l = String::new();
        push_str(&mut l, "curl -sS -X POST \"");
        push_str(&mut l, api_base);
        push_str(&mut l, "/chat/completions\" \\\n  -H \"Authorization: Bearer $GAIA_API_KEY\" \\\n  -H \"Content-Type: application/json\" \\\n  -d '{\"model\":\"");
        push_str(&mut l, model_id);
        push_str(&mut l, "\",\"messages\":[{\"role\":\"user\",\"content\":\"Hello!\"}],\"temperature\":0.7,\"stream\":false}'");
        lines.push(l);
    }
    assert(views(lines@) =~= connection_lines(api_base@, model_id@));
    lines
}

} // verus!
