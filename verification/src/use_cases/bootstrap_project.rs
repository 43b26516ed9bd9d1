//! The rules of `bootstrap`: which connections it accepts, where it writes,
//! and what the generated files hold.

use vstd::prelude::*;

use crate::change_detection::partial_load::{strip_prefix, strip_root};
use crate::domain::bootstrap::BootstrapResult;
use crate::platform::designer::{spec_connection_args, DesignerConnection};
use crate::platform::process::{find_eq, first_eq, strings_view};
use crate::support::error::AppError;
use crate::support::path::{is_abs, join, join_path, parent, path_parent};
use crate::support::text::{
    append_chars, append_str, contains_seq, free_of, lemma_masked_free_of_pattern,
    lemma_masked_keeps_absent, lemma_split_on_concat, lemma_split_on_no_sep, lemma_trim_unchanged, chars_eq, chars_eq_ignore_ascii_case, chars_of, eq_ignore_ascii_case,
    replace_all, replace_str, slice_chars, split_chars, split_on, string_of, trim, trim_chars,
    views_of,
};

verus! {

/// Name of the main configuration file.
pub const CONFIG_FILE_NAME: &'static str = "v8project.yaml";

/// Name of the local (uncommitted) configuration file.
pub const LOCAL_CONFIG_FILE_NAME: &'static str = "v8project.local.yaml";

/// Name of the ignore file.
pub const GITIGNORE_FILE_NAME: &'static str = ".gitignore";

/// What `bootstrap` was asked to create.
#[derive(Debug, Clone, PartialEq, Eq)]
pub struct BootstrapRequest {
    pub project_dir: String,
    pub connection: String,
    pub platform_version: String,
    pub platform_path: Option<String>,
    pub user: Option<String>,
    pub password: Option<String>,
    pub source_dir: String,
    pub force: bool,
}

/// The text before the first `=`, if there is one.
pub open spec fn key_before_eq(s: Seq<char>) -> Option<Seq<char>> {
    match first_eq(s) {
        Some(i) => Some(s.take(i)),
        None => None,
    }
}

/// A connection-string key that carries credentials.
pub open spec fn is_credential_key(k: Seq<char>) -> bool {
    eq_ignore_ascii_case(k, "usr"@) || eq_ignore_ascii_case(k, "user"@) || eq_ignore_ascii_case(
        k,
        "pwd"@,
    ) || eq_ignore_ascii_case(k, "password"@)
}

/// Some `;`-separated part of the connection has a credential key.
pub open spec fn has_credential_part(connection: Seq<char>) -> bool {
    exists|i: int|
        0 <= i < split_on(connection, ';').len() && is_credential_key(
            match key_before_eq(#[trigger] split_on(connection, ';')[i]) {
                Some(k) => trim(k),
                None => Seq::empty(),
            },
        )
}

/// A command-line argument that passes a user or password (`/N`, `-N`,
/// `/P`, `-P`, alone or before `=`), in any ASCII case.
pub open spec fn is_embedded_auth(arg: Seq<char>) -> bool {
    let key = match key_before_eq(arg) {
        Some(k) => k,
        None => arg,
    };
    eq_ignore_ascii_case(key, "/n"@) || eq_ignore_ascii_case(key, "-n"@) || eq_ignore_ascii_case(
        key,
        "/p"@,
    ) || eq_ignore_ascii_case(key, "-p"@)
}

/// The connection names credentials, in its key-value parts or in the
/// command-line arguments it stands for.
pub open spec fn has_embedded_credentials(connection: Seq<char>) -> bool {
    has_credential_part(connection) || exists|i: int|
        0 <= i < spec_connection_args(connection).len() && is_embedded_auth(
            #[trigger] spec_connection_args(connection)[i],
        )
}

/// The message for a connection that carries credentials.
pub open spec fn embedded_credentials_message() -> Seq<char> {
    "bootstrap connection must not contain embedded credentials; use --user and --password"@
}

/// Whether `a` equals `lit` ignoring ASCII case.
fn eq_lit_ignore_case(a: &[char], lit: &str) -> (b: bool)
    ensures
        b == eq_ignore_ascii_case(a@, lit@),
{
    let l = chars_of(lit);
    chars_eq_ignore_ascii_case(a, l.as_slice())
}

/// The key of a `KEY=VALUE` piece, or the whole piece.
fn key_or_all(s: &[char]) -> (r: Vec<char>)
    ensures
        r@ == match key_before_eq(s@) {
            Some(k) => k,
            None => s@,
        },
{
    match find_eq(s) {
        Some(i) => slice_chars(s, 0, i),
        None => {
            let r = slice_chars(s, 0, s.len());
            assert(r@ =~= s@);
            r
        },
    }
}

/// Whether an argument passes a user or password.
pub fn is_embedded_auth_arg(arg: &str) -> (b: bool)
    ensures
        b == is_embedded_auth(arg@),
{
    let cs = chars_of(arg);
    let key = key_or_all(cs.as_slice());
    eq_lit_ignore_case(key.as_slice(), "/n") || eq_lit_ignore_case(key.as_slice(), "-n")
        || eq_lit_ignore_case(key.as_slice(), "/p") || eq_lit_ignore_case(key.as_slice(), "-p")
}

/// Rejects a connection that carries credentials: they belong in `--user`
/// and `--password`.
pub fn reject_embedded_credentials(connection: &str) -> (r: Result<(), AppError>)
    ensures
        match r {
            Ok(()) => !has_embedded_credentials(connection@),
            Err(e) => has_embedded_credentials(connection@) && (e matches AppError::Validation(m) && m@
                == embedded_credentials_message()),
        },
{
    let cs = chars_of(connection);
    let parts = split_chars(cs.as_slice(), ';');
    let ghost pv = views_of(parts@);
    let mut i: usize = 0;
    let mut found = false;
    while i < parts.len() && !found
        invariant
            i <= parts@.len(),
            pv == views_of(parts@),
            pv == split_on(connection@, ';'),
            found ==> has_credential_part(connection@),
            !found ==> forall|j: int| 0 <= j < i ==> !is_credential_key(
                match key_before_eq(#[trigger] pv[j]) {
                    Some(k) => trim(k),
                    None => Seq::empty(),
                },
            ),
        decreases parts@.len() - i + (if found { 0int } else { 1int }),
    {
        assert(pv[i as int] == parts@[i as int]@);
        let key: Vec<char> = match find_eq(parts[i].as_slice()) {
            Some(k) => {
                let raw = slice_chars(parts[i].as_slice(), 0, k);
                trim_chars(raw.as_slice())
            },
            None => Vec::new(),
        };
        assert(key@ == match key_before_eq(pv[i as int]) {
            Some(k) => trim(k),
            None => Seq::<char>::empty(),
        });
        if eq_lit_ignore_case(key.as_slice(), "usr") || eq_lit_ignore_case(key.as_slice(), "user")
            || eq_lit_ignore_case(key.as_slice(), "pwd") || eq_lit_ignore_case(
            key.as_slice(),
            "password",
        ) {
            found = true;
        } else {
            i += 1;
        }
    }
    if found {
        return Err(
            AppError::Validation(
                String::from_str(
                    "bootstrap connection must not contain embedded credentials; use --user and --password",
                ),
            ),
        );
    }
    let args = DesignerConnection::from_connection_string(connection).args();
    assert(strings_view(args@) == spec_connection_args(connection@)) by {
        assert(strings_view(args@) =~= spec_connection_args(connection@) + Seq::<Seq<char>>::empty()
            + Seq::<Seq<char>>::empty());
    }
    let mut k: usize = 0;
    while k < args.len()
        invariant
            k <= args@.len(),
            strings_view(args@) == spec_connection_args(connection@),
            !has_credential_part(connection@),
            forall|j: int| 0 <= j < k ==> !is_embedded_auth(#[trigger] spec_connection_args(connection@)[j]),
        decreases args@.len() - k,
    {
        assert(strings_view(args@)[k as int] == args@[k as int]@);
        if is_embedded_auth_arg(args[k].as_str()) {
            return Err(
                AppError::Validation(
                    String::from_str(
                        "bootstrap connection must not contain embedded credentials; use --user and --password",
                    ),
                ),
            );
        }
        k += 1;
    }
    Ok(())
}

/// `value` without one pair of surrounding double quotes, or else single quotes.
pub open spec fn unquoted(v: Seq<char>) -> Seq<char> {
    if v.len() >= 2 && v[0] == '"' && v.last() == '"' {
        v.subrange(1, v.len() - 1)
    } else if v.len() >= 2 && v[0] == '\'' && v.last() == '\'' {
        v.subrange(1, v.len() - 1)
    } else {
        v
    }
}

/// Strips one pair of surrounding double quotes, or else single quotes.
pub fn unquote_connection_value(value: &str) -> (r: String)
    ensures
        r@ == unquoted(value@),
{
    let cs = chars_of(value);
    let n = cs.len();
    if n >= 2 && ((cs[0] == '"' && cs[n - 1] == '"') || (cs[0] == '\'' && cs[n - 1] == '\'')) {
        let inner = slice_chars(cs.as_slice(), 1, n - 1);
        string_of(inner.as_slice())
    } else {
        string_of(cs.as_slice())
    }
}

/// The trimmed, non-empty `;`-separated parts.
pub open spec fn nonempty_parts(pieces: Seq<Seq<char>>) -> Seq<Seq<char>>
    decreases pieces.len(),
{
    if pieces.len() == 0 {
        Seq::empty()
    } else {
        let prev = nonempty_parts(pieces.drop_last());
        let t = trim(pieces.last());
        if t.len() > 0 {
            prev.push(t)
        } else {
            prev
        }
    }
}

/// The path of a connection that is exactly one `File=<path>` part.
pub open spec fn simple_file_path(connection: Seq<char>) -> Option<Seq<char>> {
    let parts = nonempty_parts(split_on(connection, ';'));
    if parts.len() != 1 {
        None
    } else {
        let p = parts[0];
        match first_eq(p) {
            None => None,
            Some(i) => if eq_ignore_ascii_case(trim(p.take(i)), "file"@) {
                let v = unquoted(trim(p.skip(i + 1)));
                if v.len() > 0 {
                    Some(v)
                } else {
                    None
                }
            } else {
                None
            },
        }
    }
}

/// The path of a connection that is exactly one `File=<path>` part.
pub fn simple_file_connection_path(connection: &str) -> (r: Option<String>)
    ensures
        match r {
            Some(p) => simple_file_path(connection@) == Some(p@),
            None => simple_file_path(connection@) is None,
        },
{
    let cs = chars_of(connection);
    let pieces = split_chars(cs.as_slice(), ';');
    let ghost pv = views_of(pieces@);
    let mut parts: Vec<Vec<char>> = Vec::new();
    let mut i: usize = 0;
    assert(views_of(parts@) =~= nonempty_parts(pv.take(0)));
    while i < pieces.len()
        invariant
            i <= pieces@.len(),
            pv == views_of(pieces@),
            views_of(parts@) == nonempty_parts(pv.take(i as int)),
        decreases pieces@.len() - i,
    {
        assert(pv.take(i + 1).drop_last() =~= pv.take(i as int));
        assert(pv[i as int] == pieces@[i as int]@);
        let t = trim_chars(pieces[i].as_slice());
        if t.len() > 0 {
            let ghost before = views_of(parts@);
            parts.push(t);
            assert(views_of(parts@) =~= before.push(trim(pv[i as int])));
        }
        i += 1;
    }
    assert(pv.take(pieces@.len() as int) =~= pv);
    if parts.len() != 1 {
        return None;
    }
    let p = &parts[0];
    assert(views_of(parts@)[0] == p@);
    let eq = match find_eq(p.as_slice()) {
        Some(e) => e,
        None => return None,
    };
    let key_raw = slice_chars(p.as_slice(), 0, eq);
    let key = trim_chars(key_raw.as_slice());
    if !eq_lit_ignore_case(key.as_slice(), "file") {
        return None;
    }
    let val_raw = slice_chars(p.as_slice(), eq + 1, p.len());
    assert(val_raw@ =~= p@.skip(eq + 1));
    let val = trim_chars(val_raw.as_slice());
    let vs = string_of(val.as_slice());
    let v = unquote_connection_value(vs.as_str());
    if chars_of(v.as_str()).len() == 0 {
        None
    } else {
        Some(v)
    }
}

/// The connection written into the generated configuration: a simple file
/// connection as `/F "<path>"` with inner quotes escaped, anything else as given.
pub open spec fn bootstrap_connection_text(connection: Seq<char>) -> Seq<char> {
    match simple_file_path(connection) {
        Some(p) => "/F \""@ + replace_all(p, "\""@, "\\\""@) + "\""@,
        None => connection,
    }
}

/// The connection written into the generated configuration.
pub fn render_bootstrap_connection(connection: &str) -> (r: String)
    ensures
        r@ == bootstrap_connection_text(connection@),
{
    match simple_file_connection_path(connection) {
        Some(p) => {
            proof {
                reveal_strlit("\"");
            }
            let escaped = replace_str(p.as_str(), "\"", "\\\"");
            let mut out: Vec<char> = Vec::new();
            crate::support::text::append_str(&mut out, "/F \"");
            crate::support::text::append_str(&mut out, escaped.as_str());
            crate::support::text::append_str(&mut out, "\"");
            string_of(out.as_slice())
        },
        None => {
            let cs = chars_of(connection);
            string_of(cs.as_slice())
        },
    }
}

/// A single-quoted YAML scalar body: `'` doubled.
pub open spec fn yaml_escaped(v: Seq<char>) -> Seq<char> {
    replace_all(v, "'"@, "''"@)
}

/// Escapes a value for a single-quoted YAML scalar.
pub fn escape_yaml(value: &str) -> (r: String)
    ensures
        r@ == yaml_escaped(value@),
{
    proof {
        reveal_strlit("'");
    }
    replace_str(value, "'", "''")
}

/// Where `bootstrap` writes.
#[derive(Debug, Clone, PartialEq, Eq)]
pub struct BootstrapPaths {
    pub config_path: String,
    pub local_config_path: String,
    pub gitignore_path: String,
    pub source_dir: String,
}

impl BootstrapPaths {
    /// The files in the project directory and the source directory, relative
    /// ones taken under the project directory.
    pub fn new(project_dir: &str, source_dir: &str) -> (p: Self)
        ensures
            p.config_path@ == join_path(project_dir@, "v8project.yaml"@),
            p.local_config_path@ == join_path(project_dir@, "v8project.local.yaml"@),
            p.gitignore_path@ == join_path(project_dir@, ".gitignore"@),
            p.source_dir@ == (if is_abs(source_dir@) {
                source_dir@
            } else {
                join_path(project_dir@, source_dir@)
            }),
    {
        let source = if crate::support::path::is_absolute(source_dir) {
            let cs = chars_of(source_dir);
            string_of(cs.as_slice())
        } else {
            join(project_dir, source_dir)
        };
        Self {
            config_path: join(project_dir, CONFIG_FILE_NAME),
            local_config_path: join(project_dir, LOCAL_CONFIG_FILE_NAME),
            gitignore_path: join(project_dir, GITIGNORE_FILE_NAME),
            source_dir: source,
        }
    }
}

/// `path` relative to the directory of `config_path`, where it lies under it.
pub open spec fn relative_to_project_spec(config_path: Seq<char>, path: Seq<char>) -> Seq<char> {
    let dir = match parent(config_path) {
        Some(d) => d,
        None => "."@,
    };
    match strip_root(path, dir) {
        Some(r) => r,
        None => path,
    }
}

/// `path` relative to the directory of `config_path`, where it lies under it.
pub fn relative_to_project(config_path: &str, path: &str) -> (r: String)
    ensures
        r@ == relative_to_project_spec(config_path@, path@),
{
    let dir = match path_parent(config_path) {
        Some(d) => d,
        None => String::from_str("."),
    };
    match strip_prefix(path, dir.as_str()) {
        Some(r) => r,
        None => {
            let cs = chars_of(path);
            string_of(cs.as_slice())
        },
    }
}

/// The main configuration `bootstrap` writes.
pub open spec fn main_config_text(
    schema_url: Seq<char>,
    paths: BootstrapPaths,
    request: BootstrapRequest,
) -> Seq<char> {
    "# yaml-language-server: $schema="@ + schema_url
        + "\n# Generated by v8-runner bootstrap\nworkPath: 'build'\nexecution_timeout: 300000\nformat: DESIGNER\nbuilder: DESIGNER\ninfobase:\n  connection: '"@
        + yaml_escaped(bootstrap_connection_text(request.connection@))
        + "'\nsource-set:\n  - name: 'main'\n    type: CONFIGURATION\n    path: '"@
        + yaml_escaped(relative_to_project_spec(paths.config_path@, paths.source_dir@))
        + "'\ntools:\n  platform:\n    version: '"@ + yaml_escaped(request.platform_version@)
        + "'\nbuild:\n  partialLoadThreshold: 20\n"@
}

/// The main configuration `bootstrap` writes, with the given schema URL.
pub fn render_main_config(paths: &BootstrapPaths, request: &BootstrapRequest, schema_url: &str) -> (r:
    String)
    ensures
        r@ == main_config_text(schema_url@, *paths, *request),
{
    let source_path = relative_to_project(paths.config_path.as_str(), paths.source_dir.as_str());
    let connection = render_bootstrap_connection(request.connection.as_str());
    let mut out: Vec<char> = Vec::new();
    append_str(&mut out, "# yaml-language-server: $schema=");
    append_str(&mut out, schema_url);
    append_str(
        &mut out,
        "\n# Generated by v8-runner bootstrap\nworkPath: 'build'\nexecution_timeout: 300000\nformat: DESIGNER\nbuilder: DESIGNER\ninfobase:\n  connection: '",
    );
    let c = escape_yaml(connection.as_str());
    append_str(&mut out, c.as_str());
    append_str(&mut out, "'\nsource-set:\n  - name: 'main'\n    type: CONFIGURATION\n    path: '");
    let s = escape_yaml(source_path.as_str());
    append_str(&mut out, s.as_str());
    append_str(&mut out, "'\ntools:\n  platform:\n    version: '");
    let v = escape_yaml(request.platform_version.as_str());
    append_str(&mut out, v.as_str());
    append_str(&mut out, "'\nbuild:\n  partialLoadThreshold: 20\n");
    string_of(out.as_slice())
}

/// The shared configuration does not depend on the credentials or on the
/// platform path: requests that differ only in those give the same text, so
/// they reach only the local overlay.
pub proof fn law_main_config_keeps_credentials_out(
    schema_url: Seq<char>,
    paths: BootstrapPaths,
    a: BootstrapRequest,
    b: BootstrapRequest,
)
    requires
        a.connection@ == b.connection@,
        a.platform_version@ == b.platform_version@,
    ensures
        main_config_text(schema_url, paths, a) == main_config_text(schema_url, paths, b),
{
}

/// The local configuration `bootstrap` writes: `{}` when there is nothing to
/// keep locally, else the credentials and the platform path given.
pub open spec fn local_config_text(schema_url: Seq<char>, request: BootstrapRequest) -> Seq<char> {
    let head = "# yaml-language-server: $schema="@ + schema_url + "\n"@;
    if request.user is None && request.password is None && request.platform_path is None {
        head + "{}\n"@
    } else {
        head + (if request.user is Some || request.password is Some {
            "infobase:\n"@ + (match request.user {
                Some(u) => "  user: '"@ + yaml_escaped(u@) + "'\n"@,
                None => Seq::empty(),
            }) + (match request.password {
                Some(p) => "  password: '"@ + yaml_escaped(p@) + "'\n"@,
                None => Seq::empty(),
            })
        } else {
            Seq::empty()
        }) + match request.platform_path {
            Some(p) => "tools:\n"@ + "  platform:\n"@ + "    path: '"@ + yaml_escaped(p@) + "'\n"@,
            None => Seq::empty(),
        }
    }
}

/// The local configuration `bootstrap` writes, with the given schema URL.
#[verifier::rlimit(40)]
pub fn render_local_config(request: &BootstrapRequest, schema_url: &str) -> (r: String)
    ensures
        r@ == local_config_text(schema_url@, *request),
{
    let mut out: Vec<char> = Vec::new();
    append_str(&mut out, "# yaml-language-server: $schema=");
    append_str(&mut out, schema_url);
    append_str(&mut out, "\n");
    let ghost head = out@;
    if request.user.is_none() && request.password.is_none() && request.platform_path.is_none() {
        append_str(&mut out, "{}\n");
        return string_of(out.as_slice());
    }
    if request.user.is_some() || request.password.is_some() {
        append_str(&mut out, "infobase:\n");
        if let Some(user) = &request.user {
            append_str(&mut out, "  user: '");
            let u = escape_yaml(user.as_str());
            append_str(&mut out, u.as_str());
            append_str(&mut out, "'\n");
        }
        if let Some(password) = &request.password {
            append_str(&mut out, "  password: '");
            let p = escape_yaml(password.as_str());
            append_str(&mut out, p.as_str());
            append_str(&mut out, "'\n");
        }
    }
    let ghost mid = out@;
    if let Some(platform_path) = &request.platform_path {
        append_str(&mut out, "tools:\n");
        append_str(&mut out, "  platform:\n");
        append_str(&mut out, "    path: '");
        let p = escape_yaml(platform_path.as_str());
        append_str(&mut out, p.as_str());
        append_str(&mut out, "'\n");
    }
    assert(out@ =~= local_config_text(schema_url@, *request));
    string_of(out.as_slice())
}

/// The local configuration keeps what the request gives for this machine
/// only: a platform path `p` ends it with a `tools.platform.path` entry for
/// `p`, a user or a password opens it with an `infobase` section, and it is
/// the empty mapping `{}` exactly when the request gives none of the three.
pub proof fn law_local_config_keeps_local_settings(schema_url: Seq<char>, request: BootstrapRequest)
    ensures
        ({
            let text = local_config_text(schema_url, request);
            let head = "# yaml-language-server: $schema="@ + schema_url + "\n"@;
            &&& (text == head + "{}\n"@) <==> (request.user is None && request.password is None
                && request.platform_path is None)
            &&& request.platform_path matches Some(p) ==> exists|rest: Seq<char>|
                text == rest + ("tools:\n  platform:\n    path: '"@ + yaml_escaped(p@) + "'\n"@)
            &&& (request.user is Some || request.password is Some) ==> text.subrange(
                head.len() as int,
                head.len() as int + 10,
            ) == "infobase:\n"@
            &&& request.user matches Some(u) ==> exists|a: Seq<char>, b: Seq<char>|
                text == a + ("  user: '"@ + yaml_escaped(u@) + "'\n"@) + b
            &&& request.password matches Some(w) ==> exists|a: Seq<char>, b: Seq<char>|
                text == a + ("  password: '"@ + yaml_escaped(w@) + "'\n"@) + b
        }),
{
    reveal_strlit("# yaml-language-server: $schema=");
    reveal_strlit("\n");
    reveal_strlit("{}\n");
    reveal_strlit("infobase:\n");
    reveal_strlit("tools:\n");
    reveal_strlit("  platform:\n");
    reveal_strlit("    path: '");
    reveal_strlit("tools:\n  platform:\n    path: '");
    reveal_strlit("'\n");
    reveal_strlit("  user: '");
    reveal_strlit("  password: '");
    let text = local_config_text(schema_url, request);
    let head = "# yaml-language-server: $schema="@ + schema_url + "\n"@;
    let inf = if request.user is Some || request.password is Some {
        "infobase:\n"@ + (match request.user {
            Some(u) => "  user: '"@ + yaml_escaped(u@) + "'\n"@,
            None => Seq::empty(),
        }) + (match request.password {
            Some(p) => "  password: '"@ + yaml_escaped(p@) + "'\n"@,
            None => Seq::empty(),
        })
    } else {
        Seq::<char>::empty()
    };
    let tools = match request.platform_path {
        Some(p) => "tools:\n"@ + "  platform:\n"@ + "    path: '"@ + yaml_escaped(p@) + "'\n"@,
        None => Seq::<char>::empty(),
    };
    if !(request.user is None && request.password is None && request.platform_path is None) {
        assert(text == head + inf + tools);
        let pos = head.len() as int;
        if request.user is Some || request.password is Some {
            assert((head + inf + tools)[pos] == 'i');
            assert(text.subrange(pos, pos + 10) =~= "infobase:\n"@);
        } else {
            assert(inf.len() == 0);
            assert((head + inf + tools)[pos] == 't');
        }
        assert((head + "{}\n"@)[pos] == '{');
        assert(text != head + "{}\n"@);
        if let Some(p) = request.platform_path {
            assert(tools =~= "tools:\n  platform:\n    path: '"@ + yaml_escaped(p@) + "'\n"@);
            assert(text =~= (head + inf) + tools);
        }
        if let Some(u) = request.user {
            let us = "  user: '"@ + yaml_escaped(u@) + "'\n"@;
            let ps = match request.password {
                Some(p) => "  password: '"@ + yaml_escaped(p@) + "'\n"@,
                None => Seq::<char>::empty(),
            };
            assert(text =~= (head + "infobase:\n"@) + us + (ps + tools));
        }
        if let Some(w) = request.password {
            let us = match request.user {
                Some(u) => "  user: '"@ + yaml_escaped(u@) + "'\n"@,
                None => Seq::<char>::empty(),
            };
            let ps = "  password: '"@ + yaml_escaped(w@) + "'\n"@;
            assert(text =~= (head + "infobase:\n"@ + us) + ps + tools);
        }
    }
}

/// A line of an ignore file that ignores the local configuration.
pub open spec fn ignores_local_config(line: Seq<char>) -> bool {
    let t = trim(line);
    t == "v8project.local.yaml"@ || t == "/v8project.local.yaml"@ || t == "**/v8project.local.yaml"@
}

/// Some line of `content` ignores the local configuration.
pub open spec fn mentions_local_config(content: Seq<char>) -> bool {
    exists|i: int|
        0 <= i < split_on(content, '\n').len() && ignores_local_config(
            #[trigger] split_on(content, '\n')[i],
        )
}

fn is_lit(a: &[char], lit: &str) -> (b: bool)
    ensures
        b == (a@ == lit@),
{
    let l = chars_of(lit);
    chars_eq(a, l.as_slice())
}

/// Whether some line of an ignore file ignores the local configuration.
pub fn gitignore_mentions_local_config(content: &str) -> (b: bool)
    ensures
        b == mentions_local_config(content@),
{
    let cs = chars_of(content);
    let lines = split_chars(cs.as_slice(), '\n');
    let ghost lv = views_of(lines@);
    let mut i: usize = 0;
    while i < lines.len()
        invariant
            i <= lines@.len(),
            lv == views_of(lines@),
            lv == split_on(content@, '\n'),
            forall|j: int| 0 <= j < i ==> !ignores_local_config(#[trigger] lv[j]),
        decreases lines@.len() - i,
    {
        assert(lv[i as int] == lines@[i as int]@);
        let t = trim_chars(lines[i].as_slice());
        if is_lit(t.as_slice(), "v8project.local.yaml") || is_lit(t.as_slice(), "/v8project.local.yaml")
            || is_lit(t.as_slice(), "**/v8project.local.yaml") {
            assert(ignores_local_config(lv[i as int]));
            return true;
        }
        i += 1;
    }
    false
}

/// What to write to the ignore file, given its current content (`None` when
/// it does not exist): nothing when it already ignores the local
/// configuration, else the content with the pattern on a line of its own.
pub open spec fn gitignore_update(existing: Option<Seq<char>>) -> Option<Seq<char>> {
    match existing {
        None => Some("v8project.local.yaml\n"@),
        Some(c) => if mentions_local_config(c) {
            None
        } else {
            Some(
                c + (if c.len() > 0 && c.last() != '\n' {
                    "\n"@
                } else {
                    Seq::empty()
                }) + "v8project.local.yaml"@ + "\n"@,
            )
        },
    }
}

/// The local configuration's name ends the text `s` as a line of its own.
proof fn lemma_local_line_mentioned(prefix: Seq<char>)
    requires
        prefix.len() == 0 || prefix.last() == '\n',
    ensures
        mentions_local_config(prefix + "v8project.local.yaml"@ + "\n"@),
{
    reveal_strlit("v8project.local.yaml");
    reveal_strlit("\n");
    let l = "v8project.local.yaml"@;
    let nl = seq!['\n'];
    assert("\n"@ =~= nl);
    assert forall|i: int| 0 <= i < l.len() implies l[i] != '\n' by {
        assert(l[i] != '\n');
    }
    lemma_split_on_no_sep(l, '\n');
    lemma_split_on_concat(l, Seq::<char>::empty(), '\n');
    assert(l + nl + Seq::<char>::empty() =~= l + nl);
    assert(split_on(Seq::<char>::empty(), '\n') =~= seq![Seq::<char>::empty()]);
    lemma_trim_unchanged(l);
    assert(ignores_local_config(l));
    let s = prefix + l + nl;
    if prefix.len() == 0 {
        assert(s =~= l + nl);
        assert(split_on(s, '\n')[0] == l);
        assert(ignores_local_config(split_on(s, '\n')[0]));
    } else {
        let head = prefix.drop_last();
        assert(s =~= head + nl + (l + nl + Seq::<char>::empty()));
        lemma_split_on_concat(head, l + nl + Seq::<char>::empty(), '\n');
        let k = split_on(head, '\n').len() as int;
        assert(split_on(s, '\n')[k] == l);
        assert(ignores_local_config(split_on(s, '\n')[k]));
    }
}

/// Updating the ignore file a second time changes nothing: once updated it
/// ignores the local configuration, so there is nothing left to add.
pub proof fn law_gitignore_update_idempotent(existing: Option<Seq<char>>)
    ensures
        gitignore_update(existing) matches Some(s) ==> gitignore_update(Some(s)) is None,
{
    reveal_strlit("\n");
    match existing {
        None => {
            reveal_strlit("v8project.local.yaml\n");
            reveal_strlit("v8project.local.yaml");
            assert("v8project.local.yaml\n"@ =~= Seq::<char>::empty() + "v8project.local.yaml"@ + "\n"@);
            lemma_local_line_mentioned(Seq::<char>::empty());
        },
        Some(c) => {
            if !mentions_local_config(c) {
                let sep = if c.len() > 0 && c.last() != '\n' {
                    "\n"@
                } else {
                    Seq::empty()
                };
                assert((c + sep).len() == 0 || (c + sep).last() == '\n');
                lemma_local_line_mentioned(c + sep);
                assert(c + sep + "v8project.local.yaml"@ + "\n"@ =~= (c + sep) + "v8project.local.yaml"@ + "\n"@);
            }
        },
    }
}

/// What to write to the ignore file (see [`gitignore_update`]).
pub fn gitignore_content(existing: Option<&str>) -> (r: Option<String>)
    ensures
        match r {
            Some(s) => gitignore_update(match existing {
                Some(e) => Some(e@),
                None => None,
            }) == Some(s@),
            None => gitignore_update(match existing {
                Some(e) => Some(e@),
                None => None,
            }) is None,
        },
{
    match existing {
        None => {
            let mut out: Vec<char> = Vec::new();
            append_str(&mut out, LOCAL_CONFIG_FILE_NAME);
            append_str(&mut out, "\n");
            proof {
                reveal_strlit("v8project.local.yaml");
                reveal_strlit("\n");
                reveal_strlit("v8project.local.yaml\n");
            }
            assert(out@ =~= "v8project.local.yaml\n"@);
            Some(string_of(out.as_slice()))
        },
        Some(content) => {
            if gitignore_mentions_local_config(content) {
                return None;
            }
            let mut out = chars_of(content);
            let n = out.len();
            if n > 0 && out[n - 1] != '\n' {
                out.push('\n');
                proof {
                    reveal_strlit("\n");
                }
            }
            append_str(&mut out, LOCAL_CONFIG_FILE_NAME);
            append_str(&mut out, "\n");
            proof {
                reveal_strlit("\n");
            }
            assert(out@ =~= gitignore_update(Some(content@))->0);
            Some(string_of(out.as_slice()))
        },
    }
}

/// The message for a target that already exists.
pub open spec fn target_exists_message(path: Seq<char>) -> Seq<char> {
    "bootstrap target already exists: "@ + path + " (use --force to overwrite)"@
}

/// Refuses to overwrite, unless forced: the first of the main configuration,
/// the local configuration and the source directory that is among
/// `existing` is reported.
pub fn preflight_targets(paths: &BootstrapPaths, force: bool, existing: &Vec<String>) -> (r: Result<(), AppError>)
    ensures
        force ==> r is Ok,
        !force ==> match r {
            Ok(()) => !strings_view(existing@).contains(paths.config_path@) && !strings_view(
                existing@,
            ).contains(paths.local_config_path@) && !strings_view(existing@).contains(
                paths.source_dir@,
            ),
            Err(e) => (e matches AppError::Validation(m) && (if strings_view(existing@).contains(
                paths.config_path@,
            ) {
                m@ == target_exists_message(paths.config_path@)
            } else if strings_view(existing@).contains(paths.local_config_path@) {
                m@ == target_exists_message(paths.local_config_path@)
            } else {
                strings_view(existing@).contains(paths.source_dir@) && m@ == target_exists_message(
                    paths.source_dir@,
                )
            })),
        },
{
    if force {
        return Ok(());
    }
    let targets = [&paths.config_path, &paths.local_config_path, &paths.source_dir];
    let mut k: usize = 0;
    while k < 3
        invariant
            k <= 3,
            !force,
            targets@ == seq![&paths.config_path, &paths.local_config_path, &paths.source_dir],
            k > 0 ==> !strings_view(existing@).contains(paths.config_path@),
            k > 1 ==> !strings_view(existing@).contains(paths.local_config_path@),
            k > 2 ==> !strings_view(existing@).contains(paths.source_dir@),
        decreases 3 - k,
    {
        let target = targets[k];
        if contains_str(existing, target) {
            let mut m: Vec<char> = Vec::new();
            append_str(&mut m, "bootstrap target already exists: ");
            append_str(&mut m, target.as_str());
            append_str(&mut m, " (use --force to overwrite)");
            return Err(AppError::Validation(string_of(m.as_slice())));
        }
        k += 1;
    }
    Ok(())
}

fn contains_str(v: &Vec<String>, x: &String) -> (b: bool)
    ensures
        b == strings_view(v@).contains(x@),
{
    let ghost sv = strings_view(v@);
    let mut i: usize = 0;
    while i < v.len()
        invariant
            i <= v@.len(),
            sv == strings_view(v@),
            forall|j: int| 0 <= j < i ==> sv[j] != x@,
        decreases v@.len() - i,
    {
        assert(sv[i as int] == v@[i as int]@);
        if v[i] == *x {
            return true;
        }
        i += 1;
    }
    false
}

/// `message` with every non-empty user and password replaced by `***`.
pub open spec fn redacted(message: Seq<char>, user: Option<Seq<char>>, password: Option<Seq<char>>) -> Seq<
    char,
> {
    let m1 = match user {
        Some(u) => if u.len() > 0 {
            replace_all(message, u, "***"@)
        } else {
            message
        },
        None => message,
    };
    match password {
        Some(p) => if p.len() > 0 {
            replace_all(m1, p, "***"@)
        } else {
            m1
        },
        None => m1,
    }
}

/// Redaction leaves neither the user nor the password in a message, for
/// credentials that hold no `*` (the mask's own character).
pub proof fn law_redaction_hides_credentials(
    message: Seq<char>,
    user: Option<Seq<char>>,
    password: Option<Seq<char>>,
)
    requires
        user matches Some(u) ==> free_of(u, '*'),
        password matches Some(p) ==> free_of(p, '*'),
    ensures
        user matches Some(u) ==> (u.len() > 0 ==> !contains_seq(redacted(message, user, password), u)),
        password matches Some(p) ==> (p.len() > 0 ==> !contains_seq(redacted(message, user, password), p)),
{
    let m1 = match user {
        Some(u) => if u.len() > 0 {
            replace_all(message, u, "***"@)
        } else {
            message
        },
        None => message,
    };
    if let Some(p) = password {
        if p.len() > 0 {
            lemma_masked_free_of_pattern(m1, p);
        }
    }
    if let Some(u) = user {
        if u.len() > 0 {
            lemma_masked_free_of_pattern(message, u);
            if let Some(p) = password {
                if p.len() > 0 {
                    lemma_masked_keeps_absent(m1, p, u);
                }
            }
        }
    }
}

/// Replaces the request's user and password in a message by `***`.
pub fn redact_message(message: &str, request: &BootstrapRequest) -> (r: String)
    ensures
        r@ == redacted(
            message@,
            match request.user {
                Some(u) => Some(u@),
                None => None,
            },
            match request.password {
                Some(p) => Some(p@),
                None => None,
            },
        ),
{
    let cs = chars_of(message);
    let mut redacted = string_of(cs.as_slice());
    if let Some(u) = &request.user {
        if chars_of(u.as_str()).len() > 0 {
            redacted = replace_str(redacted.as_str(), u.as_str(), "***");
        }
    }
    if let Some(p) = &request.password {
        if chars_of(p.as_str()).len() > 0 {
            redacted = replace_str(redacted.as_str(), p.as_str(), "***");
        }
    }
    redacted
}

/// The result `bootstrap` reports: the paths it wrote, whether the dump ran
/// (which is also whether it succeeded), its warnings, message and duration.
pub fn bootstrap_result(
    duration_ms: u64,
    paths: &BootstrapPaths,
    dumped: bool,
    warnings: Vec<String>,
    message: Option<String>,
) -> (r: BootstrapResult)
    ensures
        r.ok == dumped,
        r.dumped == dumped,
        r.path@ == paths.config_path@,
        r.local_path@ == paths.local_config_path@,
        r.gitignore_path@ == paths.gitignore_path@,
        r.source_dir@ == paths.source_dir@,
        r.dump_target_path@ == paths.source_dir@,
        r.warnings == warnings,
        r.message == message,
        r.duration_ms == duration_ms,
{
    BootstrapResult {
        ok: dumped,
        path: paths.config_path.clone(),
        local_path: paths.local_config_path.clone(),
        gitignore_path: paths.gitignore_path.clone(),
        source_dir: paths.source_dir.clone(),
        dump_target_path: paths.source_dir.clone(),
        dumped,
        warnings,
        message,
        duration_ms,
    }
}

} // verus!
