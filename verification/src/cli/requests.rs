//! The `api`, `paste`, `newsletter`, `subscriptions` and `github` commands of
//! the client: what each reads from its arguments.

use vstd::prelude::*;
use crate::cli::args::{extra_refused, flag_taken, option_taken, pop_subcommand, positional_taken, reject_extra, result_view, subcommand_split, take_bool, take_option, take_positional, texts};
use crate::cli::commands::{ov, source_view, TextSource};
use crate::json::{object1, pretty_text, to_pretty, Json, JsonV};
use crate::text::{
    chars_of, concat3, concat_str, has_prefix, has_suffix, owned, str_eq, string_from_chars,
    sub_chars, trim, trim_str,
};

verus! {

/// `opt` or, when it is `None`, `default`.
pub open spec fn or_default(opt: Option<Seq<char>>, default: Seq<char>) -> Seq<char> {
    match opt {
        Some(v) => v,
        None => default,
    }
}

/// `api request METHOD PATH [--body BODY] [--content-type TYPE] [--no-auth]`.
#[derive(Debug, Clone, PartialEq, Eq)]
pub struct ApiRequest {
    pub method: String,
    pub path: String,
    pub body: Option<String>,
    pub content_type: String,
    pub no_auth: bool,
}

/// An API request as values.
pub open spec fn api_request_view(c: ApiRequest) -> (
    Seq<char>,
    Seq<char>,
    Option<Seq<char>>,
    Seq<char>,
    bool,
) {
    (c.method@, c.path@, ov(c.body), c.content_type@, c.no_auth)
}

/// What `api request` reads from the arguments after the subcommand.
pub open spec fn api_request_parsed(args: Seq<Seq<char>>) -> Result<
    (Seq<char>, Seq<char>, Option<Seq<char>>, Seq<char>, bool),
    Seq<char>,
> {
    let (m, a1) = positional_taken(args, "method"@);
    let (p, a2) = positional_taken(a1, "path"@);
    let (b, a3) = option_taken(a2, "--body"@);
    let (t, a4) = option_taken(a3, "--content-type"@);
    let (n, a5) = flag_taken(a4, "--no-auth"@);
    match m {
        Err(e) => Err(e),
        Ok(method) => match p {
            Err(e) => Err(e),
            Ok(path) => match b {
                Err(e) => Err(e),
                Ok(body) => match t {
                    Err(e) => Err(e),
                    Ok(ct) => match extra_refused(a5) {
                        Some(e) => Err(e),
                        None => Ok((method, path, body, or_default(ct, "application/json"@), n)),
                    },
                },
            },
        },
    }
}

/// What an `api` command line yields.
pub open spec fn api_command_outcome(args: Seq<Seq<char>>) -> Result<
    (Seq<char>, Seq<char>, Option<Seq<char>>, Seq<char>, bool),
    Seq<char>,
> {
    match subcommand_split(args, "api"@) {
        Err(e) => Err(e),
        Ok((sub, rest)) => if sub == "request"@ {
            api_request_parsed(rest)
        } else {
            Err("unknown api command "@ + sub)
        },
    }
}

/// Reads an `api` command (the arguments after `api`).
pub fn parse_api_command(argv: Vec<String>) -> (r: Result<ApiRequest, String>)
    ensures
        match r {
            Ok(c) => api_command_outcome(texts(argv@)) == Ok::<_, Seq<char>>(api_request_view(c)),
            Err(e) => api_command_outcome(texts(argv@)) == Err::<
                (Seq<char>, Seq<char>, Option<Seq<char>>, Seq<char>, bool),
                Seq<char>,
            >(e@),
        },
{
    let mut args = argv;
    let ghost a0 = texts(args@);
    let sub = match pop_subcommand(&mut args, "api") {
        Ok(s) => s,
        Err(e) => return Err(e),
    };
    assert(texts(args@) =~= a0.skip(1));
    if !str_eq(sub.as_str(), "request") {
        return Err(concat_str("unknown api command ", sub.as_str()));
    }
    let method = match take_positional(&mut args, "method") {
        Ok(m) => m,
        Err(e) => return Err(e),
    };
    let path = match take_positional(&mut args, "path") {
        Ok(p) => p,
        Err(e) => return Err(e),
    };
    let body = match take_option(&mut args, "--body") {
        Ok(b) => b,
        Err(e) => return Err(e),
    };
    let content_type = match take_option(&mut args, "--content-type") {
        Ok(Some(t)) => t,
        Ok(None) => {
            proof {
                reveal_strlit("application/json");
            }
            owned("application/json")
        },
        Err(e) => return Err(e),
    };
    let no_auth = take_bool(&mut args, "--no-auth");
    match reject_extra(&args) {
        Ok(()) => {},
        Err(e) => return Err(e),
    }
    Ok(ApiRequest { method, path, body, content_type, no_auth })
}

/// Where a request body given on the command line comes from: `-` is
/// standard input, `@PATH` a file, anything else the text itself.
pub open spec fn body_source_of(arg: Seq<char>) -> (int, Seq<char>) {
    if arg == "-"@ {
        (0, Seq::empty())
    } else if has_prefix(arg, "@"@) {
        (1, arg.skip(1))
    } else {
        (2, arg)
    }
}

/// Where a request body given on the command line comes from.
pub fn body_source(arg: &str) -> (r: TextSource)
    ensures
        source_view(r) == body_source_of(arg@),
{
    proof {
        reveal_strlit("-");
        reveal_strlit("@");
    }
    if str_eq(arg, "-") {
        return TextSource::Stdin;
    }
    let v = chars_of(arg);
    if v.len() > 0 && v[0] == '@' {
        let path = sub_chars(v.as_slice(), 1, v.len());
        assert(path@ =~= arg@.skip(1));
        assert(arg@.take(1) =~= "@"@);
        TextSource::File(string_from_chars(path.as_slice()))
    } else {
        assert(!has_prefix(arg@, "@"@)) by {
            if has_prefix(arg@, "@"@) {
                assert(arg@.take(1)[0] == arg@[0]);
            }
        }
        TextSource::Inline(owned(arg))
    }
}

/// `paste create [--file PATH|-] [--json]`.
#[derive(Debug, Clone, PartialEq, Eq)]
pub struct PasteCreate {
    pub file: Option<String>,
    pub json: bool,
}

/// What a `paste` command line yields: the file and whether to print JSON.
pub open spec fn paste_command_outcome(args: Seq<Seq<char>>) -> Result<
    (Option<Seq<char>>, bool),
    Seq<char>,
> {
    match subcommand_split(args, "paste"@) {
        Err(e) => Err(e),
        Ok((sub, rest)) => if sub == "create"@ {
            let (f, a1) = option_taken(rest, "--file"@);
            let (j, a2) = flag_taken(a1, "--json"@);
            match f {
                Err(e) => Err(e),
                Ok(file) => match extra_refused(a2) {
                    Some(e) => Err(e),
                    None => Ok((file, j)),
                },
            }
        } else {
            Err("unknown paste command "@ + sub)
        },
    }
}

/// Reads a `paste` command (the arguments after `paste`).
pub fn parse_paste_command(argv: Vec<String>) -> (r: Result<PasteCreate, String>)
    ensures
        match r {
            Ok(c) => paste_command_outcome(texts(argv@)) == Ok::<_, Seq<char>>((ov(c.file), c.json)),
            Err(e) => paste_command_outcome(texts(argv@)) == Err::<(Option<Seq<char>>, bool), Seq<
                char,
            >>(e@),
        },
{
    let mut args = argv;
    let ghost a0 = texts(args@);
    let sub = match pop_subcommand(&mut args, "paste") {
        Ok(s) => s,
        Err(e) => return Err(e),
    };
    assert(texts(args@) =~= a0.skip(1));
    if !str_eq(sub.as_str(), "create") {
        return Err(concat_str("unknown paste command ", sub.as_str()));
    }
    let file = match take_option(&mut args, "--file") {
        Ok(f) => f,
        Err(e) => return Err(e),
    };
    let json = take_bool(&mut args, "--json");
    match reject_extra(&args) {
        Ok(()) => {},
        Err(e) => return Err(e),
    }
    Ok(PasteCreate { file, json })
}

/// Where `paste create` reads the paste from: standard input for no file or
/// `-`, else the file.
pub fn paste_source(file: &Option<String>) -> (r: TextSource)
    ensures
        source_view(r) == match ov(*file) {
            None => (0int, Seq::<char>::empty()),
            Some(p) => if p == "-"@ {
                (0int, Seq::<char>::empty())
            } else {
                (1int, p)
            },
        },
{
    match file {
        None => TextSource::Stdin,
        Some(p) => if str_eq(p.as_str(), "-") {
            TextSource::Stdin
        } else {
            TextSource::File(owned(p.as_str()))
        },
    }
}

/// `option` as a required value: its error, the `required` message when it
/// is absent, or the value.
pub open spec fn required(
    option: Result<Option<Seq<char>>, Seq<char>>,
    message: Seq<char>,
) -> Result<Seq<char>, Seq<char>> {
    match option {
        Err(e) => Err(e),
        Ok(None) => Err(message),
        Ok(Some(v)) => Ok(v),
    }
}

/// Takes an option that must be given.
fn take_required(args: &mut Vec<String>, name: &str, message: &str) -> (r: Result<String, String>)
    ensures
        result_view(r) == required(option_taken(texts(old(args)@), name@).0, message@),
        texts(final(args)@) == option_taken(texts(old(args)@), name@).1,
{
    match take_option(args, name) {
        Ok(Some(v)) => Ok(v),
        Ok(None) => Err(owned(message)),
        Err(e) => Err(e),
    }
}

/// `newsletter publish --title T --html-file H --text-file X`.
#[derive(Debug, Clone, PartialEq, Eq)]
pub struct NewsletterPublish {
    pub title: String,
    pub html_file: String,
    pub text_file: String,
}

/// What a `newsletter` command line yields.
pub open spec fn newsletter_command_outcome(args: Seq<Seq<char>>) -> Result<
    (Seq<char>, Seq<char>, Seq<char>),
    Seq<char>,
> {
    match subcommand_split(args, "newsletter"@) {
        Err(e) => Err(e),
        Ok((sub, rest)) => if sub == "publish"@ {
            let (t, a1) = option_taken(rest, "--title"@);
            let (h, a2) = option_taken(a1, "--html-file"@);
            let (x, a3) = option_taken(a2, "--text-file"@);
            match required(t, "--title is required"@) {
                Err(e) => Err(e),
                Ok(title) => match required(h, "--html-file is required"@) {
                    Err(e) => Err(e),
                    Ok(html) => match required(x, "--text-file is required"@) {
                        Err(e) => Err(e),
                        Ok(text) => match extra_refused(a3) {
                            Some(e) => Err(e),
                            None => Ok((title, html, text)),
                        },
                    },
                },
            }
        } else {
            Err("unknown newsletter command "@ + sub)
        },
    }
}

/// Reads a `newsletter` command (the arguments after `newsletter`).
pub fn parse_newsletter_command(argv: Vec<String>) -> (r: Result<NewsletterPublish, String>)
    ensures
        match r {
            Ok(c) => newsletter_command_outcome(texts(argv@)) == Ok::<_, Seq<char>>(
                (c.title@, c.html_file@, c.text_file@),
            ),
            Err(e) => newsletter_command_outcome(texts(argv@)) == Err::<
                (Seq<char>, Seq<char>, Seq<char>),
                Seq<char>,
            >(e@),
        },
{
    let mut args = argv;
    let ghost a0 = texts(args@);
    let sub = match pop_subcommand(&mut args, "newsletter") {
        Ok(s) => s,
        Err(e) => return Err(e),
    };
    assert(texts(args@) =~= a0.skip(1));
    if !str_eq(sub.as_str(), "publish") {
        return Err(concat_str("unknown newsletter command ", sub.as_str()));
    }
    let title = match take_required(&mut args, "--title", "--title is required") {
        Ok(t) => t,
        Err(e) => return Err(e),
    };
    let html_file = match take_required(&mut args, "--html-file", "--html-file is required") {
        Ok(h) => h,
        Err(e) => return Err(e),
    };
    let text_file = match take_required(&mut args, "--text-file", "--text-file is required") {
        Ok(t) => t,
        Err(e) => return Err(e),
    };
    match reject_extra(&args) {
        Ok(()) => {},
        Err(e) => return Err(e),
    }
    Ok(NewsletterPublish { title, html_file, text_file })
}

/// `subscriptions subscribe --email E [--name N]`.
#[derive(Debug, Clone, PartialEq, Eq)]
pub struct SubscribeCommand {
    pub email: String,
    pub name: Option<String>,
}

/// What a `subscriptions` command line yields.
pub open spec fn subscriptions_command_outcome(args: Seq<Seq<char>>) -> Result<
    (Seq<char>, Option<Seq<char>>),
    Seq<char>,
> {
    match subcommand_split(args, "subscriptions"@) {
        Err(e) => Err(e),
        Ok((sub, rest)) => if sub == "subscribe"@ {
            let (e, a1) = option_taken(rest, "--email"@);
            let (n, a2) = option_taken(a1, "--name"@);
            match required(e, "--email is required"@) {
                Err(err) => Err(err),
                Ok(email) => match n {
                    Err(err) => Err(err),
                    Ok(name) => match extra_refused(a2) {
                        Some(err) => Err(err),
                        None => Ok((email, name)),
                    },
                },
            }
        } else {
            Err("unknown subscriptions command "@ + sub)
        },
    }
}

/// Reads a `subscriptions` command (the arguments after `subscriptions`).
pub fn parse_subscriptions_command(argv: Vec<String>) -> (r: Result<SubscribeCommand, String>)
    ensures
        match r {
            Ok(c) => subscriptions_command_outcome(texts(argv@)) == Ok::<_, Seq<char>>(
                (c.email@, ov(c.name)),
            ),
            Err(e) => subscriptions_command_outcome(texts(argv@)) == Err::<
                (Seq<char>, Option<Seq<char>>),
                Seq<char>,
            >(e@),
        },
{
    let mut args = argv;
    let ghost a0 = texts(args@);
    let sub = match pop_subcommand(&mut args, "subscriptions") {
        Ok(s) => s,
        Err(e) => return Err(e),
    };
    assert(texts(args@) =~= a0.skip(1));
    if !str_eq(sub.as_str(), "subscribe") {
        return Err(concat_str("unknown subscriptions command ", sub.as_str()));
    }
    let email = match take_required(&mut args, "--email", "--email is required") {
        Ok(e) => e,
        Err(e) => return Err(e),
    };
    let name = match take_option(&mut args, "--name") {
        Ok(n) => n,
        Err(e) => return Err(e),
    };
    match reject_extra(&args) {
        Ok(()) => {},
        Err(e) => return Err(e),
    }
    Ok(SubscribeCommand { email, name })
}

/// `github pi-threads-block [--label L] [--url U]`.
#[derive(Debug, Clone, PartialEq, Eq)]
pub struct PiThreadsBlockCommand {
    pub label: String,
    pub url: Option<String>,
}

/// What a `github` command line yields.
pub open spec fn github_command_outcome(args: Seq<Seq<char>>) -> Result<
    (Seq<char>, Option<Seq<char>>),
    Seq<char>,
> {
    match subcommand_split(args, "github"@) {
        Err(e) => Err(e),
        Ok((sub, rest)) => if sub == "pi-threads-block"@ {
            let (l, a1) = option_taken(rest, "--label"@);
            let (u, a2) = option_taken(a1, "--url"@);
            match l {
                Err(e) => Err(e),
                Ok(label) => match u {
                    Err(e) => Err(e),
                    Ok(url) => match extra_refused(a2) {
                        Some(e) => Err(e),
                        None => Ok((or_default(label, "current coding-agent thread"@), url)),
                    },
                },
            }
        } else {
            Err("unknown github command "@ + sub)
        },
    }
}

/// Reads a `github` command (the arguments after `github`).
pub fn parse_github_command(argv: Vec<String>) -> (r: Result<PiThreadsBlockCommand, String>)
    ensures
        match r {
            Ok(c) => github_command_outcome(texts(argv@)) == Ok::<_, Seq<char>>(
                (c.label@, ov(c.url)),
            ),
            Err(e) => github_command_outcome(texts(argv@)) == Err::<
                (Seq<char>, Option<Seq<char>>),
                Seq<char>,
            >(e@),
        },
{
    let mut args = argv;
    let ghost a0 = texts(args@);
    let sub = match pop_subcommand(&mut args, "github") {
        Ok(s) => s,
        Err(e) => return Err(e),
    };
    assert(texts(args@) =~= a0.skip(1));
    if !str_eq(sub.as_str(), "pi-threads-block") {
        return Err(concat_str("unknown github command ", sub.as_str()));
    }
    let label = match take_option(&mut args, "--label") {
        Ok(Some(l)) => l,
        Ok(None) => owned("current coding-agent thread"),
        Err(e) => return Err(e),
    };
    let url = match take_option(&mut args, "--url") {
        Ok(u) => u,
        Err(e) => return Err(e),
    };
    match reject_extra(&args) {
        Ok(()) => {},
        Err(e) => return Err(e),
    }
    Ok(PiThreadsBlockCommand { label, url })
}

/// What the client prints for a server reply: the body, ending with a line
/// break; or, when the status is not a success, the error naming status and
/// body.
pub open spec fn reply_output(success: bool, status: Seq<char>, body: Seq<char>) -> Result<
    Seq<char>,
    Seq<char>,
> {
    if !success {
        Err("server returned "@ + status + ": "@ + body)
    } else if has_suffix(body, "\n"@) {
        Ok(body)
    } else {
        Ok(body + "\n"@)
    }
}

/// The text to print for a server reply, or the error to report.
pub fn response_output(success: bool, status: &str, body: &str) -> (r: Result<String, String>)
    ensures
        match r {
            Ok(t) => reply_output(success, status@, body@) == Ok::<Seq<char>, Seq<char>>(t@),
            Err(e) => reply_output(success, status@, body@) == Err::<Seq<char>, Seq<char>>(e@),
        },
{
    if !success {
        let a = concat3("server returned ", status, ": ");
        return Err(concat_str(a.as_str(), body));
    }
    let v = chars_of(body);
    let nl: Vec<char> = vec!['\n'];
    proof {
        reveal_strlit("\n");
        assert(nl@ =~= "\n"@);
    }
    if crate::text::ends_with_chars(v.as_slice(), nl.as_slice()) {
        Ok(owned(body))
    } else {
        Ok(concat_str(body, "\n"))
    }
}

/// What `paste create` prints for the server's reply: the paste's address,
/// trimmed, alone or as the pretty JSON object `{"url": ...}`.
pub open spec fn paste_created_text(body: Seq<char>, json: bool) -> Seq<char> {
    if json {
        pretty_text(JsonV::Object(seq![("url"@, JsonV::Str(trim(body)))]))
    } else {
        trim(body)
    }
}

/// The text `paste create` prints for a successful reply.
pub fn paste_created_output(body: &str, json: bool) -> (r: String)
    ensures
        r@ == paste_created_text(body@, json),
{
    let url = trim_str(body);
    if json {
        let v = object1("url", Json::Str(url));
        to_pretty(&v)
    } else {
        url
    }
}

} // verus!
