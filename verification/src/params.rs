use vstd::prelude::*;
use vstd::string::StringExecFns;

use crate::jsonrpc::json_string_spec;
use crate::jsonrpc::push_json_string;
use crate::jsonrpc::Request;
use crate::session::Document;
use crate::text::dec_chars_signed;
use crate::text::push_dec_chars_signed;

verus! {

/// A JSON array of string literals, built left to right.
pub open spec fn json_array_acc(items: Seq<Seq<char>>, i: int, acc: Seq<char>) -> Seq<char>
    decreases items.len() - i when 0 <= i <= items.len()
{
    if i >= items.len() {
        acc + "]"@
    } else {
        json_array_acc(
            items,
            i + 1,
            acc + (if i > 0 {
                ","@
            } else {
                Seq::<char>::empty()
            }) + json_string_spec(items[i]),
        )
    }
}

/// The JSON array holding the strings of `items`, in order.
pub open spec fn json_string_array_spec(items: Seq<Seq<char>>) -> Seq<char> {
    json_array_acc(items, 0, "["@)
}

fn push_json_string_array(items: &Vec<String>, out: &mut String)
    ensures
        final(out)@ == old(out)@ + json_string_array_spec(items.deep_view()),
{
    out.append("[");
    let mut i: usize = 0;
    proof {
        assert(out@.skip(old(out)@.len() as int) =~= "["@);
        assert(out@.take(old(out)@.len() as int) =~= old(out)@);
    }
    while i < items.len()
        invariant
            0 <= i <= items@.len(),
            json_array_acc(items.deep_view(), 0, "["@) == json_array_acc(
                items.deep_view(),
                i as int,
                out@.skip(old(out)@.len() as int),
            ),
            out@.len() >= old(out)@.len(),
            out@.take(old(out)@.len() as int) == old(out)@,
        decreases items@.len() - i,
    {
        let ghost pre = out@;
        if i > 0 {
            out.append(",");
        }
        push_json_string(items[i].as_str(), out);
        proof {
            assert(items.deep_view()[i as int] == items@[i as int]@);
            assert(out@.take(old(out)@.len() as int) =~= old(out)@);
            assert(out@.skip(old(out)@.len() as int) =~= pre.skip(old(out)@.len() as int) + (if i
                > 0 {
                ","@
            } else {
                Seq::<char>::empty()
            }) + json_string_spec(items@[i as int]@));
        }
        i = i + 1;
    }
    out.append("]");
    proof {
        assert(out@.skip(old(out)@.len() as int) =~= out@.skip(old(out)@.len() as int));
        assert(out@ =~= old(out)@ + out@.skip(old(out)@.len() as int));
    }
}

/// The `initialize` parameters sent to the sidecar: the project root,
/// classpath, compiler flags, JDK home and source roots of the
/// resolved model.
pub open spec fn initialize_params_spec(
    project_root: Seq<char>,
    classpath: Seq<Seq<char>>,
    compiler_flags: Seq<Seq<char>>,
    jdk_home: Seq<char>,
    source_roots: Seq<Seq<char>>,
) -> Seq<char> {
    "{\"projectRoot\":"@ + json_string_spec(project_root) + ",\"classpath\":"@
        + json_string_array_spec(classpath) + ",\"compilerFlags\":"@ + json_string_array_spec(
        compiler_flags,
    ) + ",\"jdkHome\":"@ + json_string_spec(jdk_home) + ",\"sourceRoots\":"@
        + json_string_array_spec(source_roots) + "}"@
}

/// Renders the `initialize` parameter object.
pub fn initialize_params(
    project_root: &str,
    classpath: &Vec<String>,
    compiler_flags: &Vec<String>,
    jdk_home: &str,
    source_roots: &Vec<String>,
) -> (r: String)
    ensures
        r@ == initialize_params_spec(
            project_root@,
            classpath.deep_view(),
            compiler_flags.deep_view(),
            jdk_home@,
            source_roots.deep_view(),
        ),
{
    let mut out = String::new();
    out.append("{\"projectRoot\":");
    push_json_string(project_root, &mut out);
    out.append(",\"classpath\":");
    push_json_string_array(classpath, &mut out);
    out.append(",\"compilerFlags\":");
    push_json_string_array(compiler_flags, &mut out);
    out.append(",\"jdkHome\":");
    push_json_string(jdk_home, &mut out);
    out.append(",\"sourceRoots\":");
    push_json_string_array(source_roots, &mut out);
    out.append("}");
    proof {
        assert(out@ =~= initialize_params_spec(
            project_root@,
            classpath.deep_view(),
            compiler_flags.deep_view(),
            jdk_home@,
            source_roots.deep_view(),
        ));
    }
    out
}

/// The `textDocument/didChange` parameters: the document's URI, its
/// version, and the full replacement text.
pub open spec fn did_change_params_spec(uri: Seq<char>, version: int, text: Seq<char>) -> Seq<
    char,
> {
    "{\"uri\":"@ + json_string_spec(uri) + ",\"version\":"@ + dec_chars_signed(version)
        + ",\"text\":"@ + json_string_spec(text) + "}"@
}

/// Renders the `didChange` parameter object.
pub fn did_change_params(uri: &str, version: i32, text: &str) -> (r: String)
    ensures
        r@ == did_change_params_spec(uri@, version as int, text@),
{
    let mut out = String::new();
    out.append("{\"uri\":");
    push_json_string(uri, &mut out);
    out.append(",\"version\":");
    push_dec_chars_signed(version as i64, &mut out);
    out.append(",\"text\":");
    push_json_string(text, &mut out);
    out.append("}");
    proof {
        assert(out@ =~= did_change_params_spec(uri@, version as int, text@));
    }
    out
}

/// The notifications that replay the session into a freshly
/// restarted sidecar: one `textDocument/didOpen` per open document,
/// in session order, each carrying the document's full text and
/// version, so the sidecar's in-memory set matches the session's.
pub fn replay_notifications(docs: &Vec<(String, Document)>) -> (r: Vec<Request>)
    ensures
        r@.len() == docs@.len(),
        forall|k: int|
            0 <= k < r@.len() ==> {
                &&& (#[trigger] r@[k]).id is None
                &&& r@[k].method@ == "textDocument/didOpen"@
                &&& (r@[k].params matches Some(p) && p@ == did_change_params_spec(
                    docs@[k].0@,
                    docs@[k].1.version as int,
                    docs@[k].1.text@,
                ))
            },
{
    let mut out: Vec<Request> = Vec::new();
    let mut i: usize = 0;
    while i < docs.len()
        invariant
            0 <= i <= docs@.len(),
            out@.len() == i,
            forall|k: int|
                0 <= k < i ==> {
                    &&& (#[trigger] out@[k]).id is None
                    &&& out@[k].method@ == "textDocument/didOpen"@
                    &&& (out@[k].params matches Some(p) && p@ == did_change_params_spec(
                        docs@[k].0@,
                        docs@[k].1.version as int,
                        docs@[k].1.text@,
                    ))
                },
        decreases docs@.len() - i,
    {
        let entry = &docs[i];
        let params = did_change_params(entry.0.as_str(), entry.1.version, entry.1.text.as_str());
        out.push(Request::notification("textDocument/didOpen", Some(params)));
        i = i + 1;
    }
    out
}

/// The `analyze` parameters: just the document's URI.
pub open spec fn analyze_params_spec(uri: Seq<char>) -> Seq<char> {
    "{\"uri\":"@ + json_string_spec(uri) + "}"@
}

/// Renders the `analyze` parameter object.
pub fn analyze_params(uri: &str) -> (r: String)
    ensures
        r@ == analyze_params_spec(uri@),
{
    let mut out = String::new();
    out.append("{\"uri\":");
    push_json_string(uri, &mut out);
    out.append("}");
    proof {
        assert(out@ =~= analyze_params_spec(uri@));
    }
    out
}

} // verus!
