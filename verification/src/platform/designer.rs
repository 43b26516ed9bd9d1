//! Command lines for the platform binary in DESIGNER batch mode.
//!
//! Each command of the DSL yields the process request to run; the outcome of
//! running it is judged by [`DesignerDsl::finish_run`].

use vstd::prelude::*;

use crate::platform::process::{strings_view, ProcessError, ProcessRequest, ProcessResult};
use crate::support::text::{chars_of, char_is_ws, is_ws, string_of};

verus! {

/// Why a Designer invocation failed.
#[derive(Debug, PartialEq, Eq)]
pub enum DesignerError {
    /// `designer binary not found: {0}`
    BinaryNotFound(String),
    /// `designer process failed (exit {code}): {stderr}`
    ProcessFailed { code: i32, stderr: String },
    /// `failed to spawn designer: {0}`
    Spawn(ProcessError),
}

/// Splits a raw command line into arguments: whitespace separates outside
/// double quotes, quotes themselves are dropped, empty arguments vanish.
pub open spec fn tokenize(s: Seq<char>, cur: Seq<char>, in_quotes: bool) -> Seq<Seq<char>>
    decreases s.len(),
{
    if s.len() == 0 {
        if cur.len() > 0 {
            seq![cur]
        } else {
            Seq::<Seq<char>>::empty()
        }
    } else {
        let c = s[0];
        let rest = s.drop_first();
        if c == '"' {
            tokenize(rest, cur, !in_quotes)
        } else if is_ws(c) && !in_quotes {
            if cur.len() > 0 {
                seq![cur] + tokenize(rest, Seq::<char>::empty(), in_quotes)
            } else {
                tokenize(rest, Seq::<char>::empty(), in_quotes)
            }
        } else {
            tokenize(rest, cur.push(c), in_quotes)
        }
    }
}

/// The arguments of a raw connection string such as `/F "/tmp/my ib"`.
pub open spec fn split_args(s: Seq<char>) -> Seq<Seq<char>> {
    tokenize(s, Seq::<char>::empty(), false)
}

/// Appends a string argument.
pub fn push_arg(args: &mut Vec<String>, a: &str)
    ensures
        strings_view(final(args)@) == strings_view(old(args)@).push(a@),
{
    let s = a.to_owned();
    args.push(s);
    assert(strings_view(args@) =~= strings_view(old(args)@).push(a@));
}

/// Splits a raw connection string into arguments.
pub fn split_arg_string(raw: &str) -> (args: Vec<String>)
    ensures
        strings_view(args@) == split_args(raw@),
{
    let s = chars_of(raw);
    let mut args: Vec<String> = Vec::new();
    let mut current: Vec<char> = Vec::new();
    let mut in_quotes = false;
    let mut i: usize = 0;
    assert(s@.skip(0) =~= s@);
    while i < s.len()
        invariant
            i <= s@.len(),
            s@ == raw@,
            strings_view(args@) + tokenize(s@.skip(i as int), current@, in_quotes) == split_args(s@),
        decreases s@.len() - i,
    {
        let c = s[i];
        let ghost t = s@.skip(i as int);
        let ghost cur0 = current@;
        let ghost inq0 = in_quotes;
        let ghost args0 = strings_view(args@);
        assert(t.drop_first() =~= s@.skip(i + 1));
        assert(t[0] == c);
        if c == '"' {
            in_quotes = !in_quotes;
        } else if char_is_ws(c) && !in_quotes {
            if current.len() > 0 {
                let ghost before = strings_view(args@);
                let ghost cur = current@;
                args.push(string_of(current.as_slice()));
                assert(strings_view(args@) =~= before.push(cur));
                current = Vec::new();
                assert(strings_view(args@) + tokenize(s@.skip(i + 1), current@, in_quotes)
                    =~= before + tokenize(t, cur, in_quotes));
            } else {
                assert(cur0 =~= Seq::<char>::empty());
            }
        } else {
            current.push(c);
        }
        assert(strings_view(args@) + tokenize(s@.skip(i + 1), current@, in_quotes) == args0
            + tokenize(t, cur0, inq0));
        i += 1;
    }
    assert(s@.skip(i as int) =~= Seq::<char>::empty());
    if current.len() > 0 {
        let ghost before = strings_view(args@);
        args.push(string_of(current.as_slice()));
        assert(strings_view(args@) =~= before.push(current@));
    } else {
        assert(strings_view(args@) + Seq::<Seq<char>>::empty() =~= strings_view(args@));
    }
    args
}

/// Connection parameters passed to every Designer invocation.
#[derive(Debug, Clone, PartialEq, Eq)]
pub struct DesignerConnection {
    /// Tokenized connection arguments such as `["/F", "/path/to/ib"]`.
    pub connection_args: Vec<String>,
    pub user: Option<String>,
    pub password: Option<String>,
}

/// Connection arguments of a raw connection string: raw `/...` command lines
/// are split, anything else is passed as `/IBConnectionString <s>`.
pub open spec fn spec_connection_args(s: Seq<char>) -> Seq<Seq<char>> {
    if s.len() > 0 && s[0] == '/' {
        split_args(s)
    } else {
        seq!["/IBConnectionString"@, s]
    }
}

/// The arguments of a connection: its own, then `/N user`, then `/P password`.
pub open spec fn spec_designer_args(c: DesignerConnection) -> Seq<Seq<char>> {
    strings_view(c.connection_args@) + (match c.user {
        Some(u) => seq!["/N"@, u@],
        None => Seq::<Seq<char>>::empty(),
    }) + (match c.password {
        Some(p) => seq!["/P"@, p@],
        None => Seq::<Seq<char>>::empty(),
    })
}

impl DesignerConnection {
    /// Build from a raw connection string (e.g. `File=/path/to/ib`).
    pub fn from_connection_string(s: &str) -> (c: Self)
        ensures
            strings_view(c.connection_args@) == spec_connection_args(s@),
            c.user is None,
            c.password is None,
    {
        let cs = chars_of(s);
        let connection_args = if cs.len() > 0 && cs[0] == '/' {
            split_arg_string(s)
        } else {
            let mut v: Vec<String> = Vec::new();
            push_arg(&mut v, "/IBConnectionString");
            push_arg(&mut v, s);
            assert(strings_view(v@) =~= seq!["/IBConnectionString"@, s@]);
            v
        };
        Self { connection_args, user: None, password: None }
    }

    /// All arguments for the connection, credentials included.
    pub fn args(&self) -> (args: Vec<String>)
        ensures
            strings_view(args@) == spec_designer_args(*self),
    {
        let mut args = self.connection_args.clone();
        assert(strings_view(args@) =~= strings_view(self.connection_args@)) by {
            assert forall|i: int| 0 <= i < args@.len() implies #[trigger] strings_view(args@)[i]
                == strings_view(self.connection_args@)[i] by {
                assert(args@[i] == self.connection_args@[i]);
            }
        }
        let ghost base = strings_view(args@);
        if let Some(u) = &self.user {
            push_arg(&mut args, "/N");
            push_arg(&mut args, u.as_str());
        }
        let ghost mid = strings_view(args@);
        assert(mid =~= base + (match self.user {
            Some(u) => seq!["/N"@, u@],
            None => Seq::<Seq<char>>::empty(),
        }));
        if let Some(p) = &self.password {
            push_arg(&mut args, "/P");
            push_arg(&mut args, p.as_str());
        }
        assert(strings_view(args@) =~= mid + (match self.password {
            Some(p) => seq!["/P"@, p@],
            None => Seq::<Seq<char>>::empty(),
        }));
        args
    }
}

/// Low-level DSL for invoking the platform binary in DESIGNER batch mode.
#[derive(Debug, Clone, PartialEq, Eq)]
pub struct DesignerDsl {
    binary: String,
    connection: DesignerConnection,
    /// Optional file to capture Designer's `/Out` log.
    log_file: Option<String>,
}

/// Arguments every Designer command starts with.
pub open spec fn spec_base_args(c: DesignerConnection, log: Option<String>) -> Seq<Seq<char>> {
    seq!["DESIGNER"@, "/DisableStartupDialogs"@, "/DisableStartupMessages"@] + spec_designer_args(c)
        + (match log {
        Some(l) => seq!["/Out"@, l@, "-NoTruncate"@],
        None => Seq::<Seq<char>>::empty(),
    })
}

/// `-Extension <name>` when an extension is named.
pub open spec fn extension_args(ext: Option<&str>) -> Seq<Seq<char>> {
    match ext {
        Some(e) => seq!["-Extension"@, e@],
        None => Seq::<Seq<char>>::empty(),
    }
}

/// Every Designer command that takes an extension (full and partial load,
/// `/UpdateDBCfg`, dump) ends its arguments with `extension_args`: so a
/// command built for an extension `e` ends with `-Extension` and `e`, and
/// one built without is the same command with those two arguments left off.
pub proof fn law_extension_closes_command(args: Seq<Seq<char>>, e: &str)
    ensures
        ({
            let with = args + extension_args(Some(e));
            &&& with.len() == args.len() + 2
            &&& with[with.len() - 2] == "-Extension"@
            &&& with[with.len() - 1] == e@
            &&& with.subrange(0, args.len() as int) == args
        }),
        args + extension_args(None) == args,
{
    assert(args + extension_args(None) =~= args);
    assert((args + extension_args(Some(e))).subrange(0, args.len() as int) =~= args);
}

/// A request for the Designer binary with the given arguments and nothing else.
pub open spec fn designer_request(r: ProcessRequest, binary: Seq<char>, args: Seq<Seq<char>>) -> bool {
    &&& r.program@ == binary
    &&& strings_view(r.args@) == args
    &&& r.workdir is None
    &&& r.stdout_log_path is None
    &&& r.stderr_log_path is None
    &&& r.startup_probe_ms is None
}

impl View for DesignerDsl {
    type V = (Seq<char>, DesignerConnection, Option<String>);

    closed spec fn view(&self) -> (Seq<char>, DesignerConnection, Option<String>) {
        (self.binary@, self.connection, self.log_file)
    }
}

fn push_extension(args: &mut Vec<String>, extension: Option<&str>)
    ensures
        strings_view(final(args)@) == strings_view(old(args)@) + extension_args(extension),
{
    if let Some(ext) = extension {
        push_arg(args, "-Extension");
        push_arg(args, ext);
    }
    assert(strings_view(args@) =~= strings_view(old(args)@) + extension_args(extension));
}

impl DesignerDsl {
    /// A DSL for the given binary, connection and optional `/Out` log.
    pub fn new(binary: String, connection: DesignerConnection, log_file: Option<String>) -> (d: Self)
        ensures
            d@ == (binary@, connection, log_file),
    {
        Self { binary, connection, log_file }
    }

    fn base_args(&self) -> (args: Vec<String>)
        ensures
            strings_view(args@) == spec_base_args(self@.1, self@.2),
    {
        let mut args: Vec<String> = Vec::new();
        push_arg(&mut args, "DESIGNER");
        push_arg(&mut args, "/DisableStartupDialogs");
        push_arg(&mut args, "/DisableStartupMessages");
        let ghost head = strings_view(args@);
        let mut conn = self.connection.args();
        let ghost c = strings_view(conn@);
        args.append(&mut conn);
        assert(strings_view(args@) =~= head + c);
        let ghost mid = strings_view(args@);
        if let Some(log) = &self.log_file {
            push_arg(&mut args, "/Out");
            push_arg(&mut args, log.as_str());
            push_arg(&mut args, "-NoTruncate");
        }
        assert(strings_view(args@) =~= mid + (match self.log_file {
            Some(l) => seq!["/Out"@, l@, "-NoTruncate"@],
            None => Seq::<Seq<char>>::empty(),
        }));
        args
    }

    fn request(&self, args: Vec<String>) -> (r: ProcessRequest)
        ensures
            designer_request(r, self@.0, strings_view(args@)),
    {
        ProcessRequest {
            program: self.binary.clone(),
            args,
            workdir: None,
            stdout_log_path: None,
            stderr_log_path: None,
            startup_probe_ms: None,
        }
    }

    /// `/LoadConfigFromFiles <dir> -updateConfigDumpInfo [-Extension <name>]`: full load.
    pub fn load_config_from_files_full(&self, source_dir: &str, extension: Option<&str>) -> (r:
        ProcessRequest)
        ensures
            designer_request(
                r,
                self@.0,
                spec_base_args(self@.1, self@.2) + seq![
                    "/LoadConfigFromFiles"@,
                    source_dir@,
                    "-updateConfigDumpInfo"@,
                ] + extension_args(extension),
            ),
            extension matches Some(e) ==> ({
                let a = strings_view(r.args@);
                a.len() >= 2 && a[a.len() - 2] == "-Extension"@ && a[a.len() - 1] == e@
            }),
            extension is None ==> strings_view(r.args@).last() == "-updateConfigDumpInfo"@,
    {
        let mut args = self.base_args();
        let ghost b = strings_view(args@);
        push_arg(&mut args, "/LoadConfigFromFiles");
        push_arg(&mut args, source_dir);
        push_arg(&mut args, "-updateConfigDumpInfo");
        let ghost m = strings_view(args@);
        assert(m =~= b + seq!["/LoadConfigFromFiles"@, source_dir@, "-updateConfigDumpInfo"@]);
        push_extension(&mut args, extension);
        self.request(args)
    }

    /// `/LoadConfigFromFiles <dir> -partial -listFile <list> -updateConfigDumpInfo [-Extension <name>]`.
    pub fn load_config_from_files_partial(
        &self,
        source_dir: &str,
        list_file: &str,
        extension: Option<&str>,
    ) -> (r: ProcessRequest)
        ensures
            designer_request(
                r,
                self@.0,
                spec_base_args(self@.1, self@.2) + seq![
                    "/LoadConfigFromFiles"@,
                    source_dir@,
                    "-partial"@,
                    "-listFile"@,
                    list_file@,
                    "-updateConfigDumpInfo"@,
                ] + extension_args(extension),
            ),
            extension matches Some(e) ==> ({
                let a = strings_view(r.args@);
                a.len() >= 2 && a[a.len() - 2] == "-Extension"@ && a[a.len() - 1] == e@
            }),
            extension is None ==> strings_view(r.args@).last() == "-updateConfigDumpInfo"@,
    {
        let mut args = self.base_args();
        let ghost b = strings_view(args@);
        push_arg(&mut args, "/LoadConfigFromFiles");
        push_arg(&mut args, source_dir);
        push_arg(&mut args, "-partial");
        push_arg(&mut args, "-listFile");
        push_arg(&mut args, list_file);
        push_arg(&mut args, "-updateConfigDumpInfo");
        let ghost m = strings_view(args@);
        assert(m =~= b + seq![
            "/LoadConfigFromFiles"@,
            source_dir@,
            "-partial"@,
            "-listFile"@,
            list_file@,
            "-updateConfigDumpInfo"@,
        ]);
        push_extension(&mut args, extension);
        self.request(args)
    }

    /// `/UpdateDBCfg [-Extension <name>]`: apply the loaded configuration.
    pub fn update_db_cfg(&self, extension: Option<&str>) -> (r: ProcessRequest)
        ensures
            designer_request(
                r,
                self@.0,
                spec_base_args(self@.1, self@.2) + seq!["/UpdateDBCfg"@] + extension_args(extension),
            ),
            extension matches Some(e) ==> ({
                let a = strings_view(r.args@);
                a.len() >= 2 && a[a.len() - 2] == "-Extension"@ && a[a.len() - 1] == e@
            }),
            extension is None ==> strings_view(r.args@).last() == "/UpdateDBCfg"@,
    {
        let mut args = self.base_args();
        let ghost b = strings_view(args@);
        push_arg(&mut args, "/UpdateDBCfg");
        let ghost m = strings_view(args@);
        assert(m == b + seq!["/UpdateDBCfg"@]);
        push_extension(&mut args, extension);
        assert(strings_view(args@) == m + extension_args(extension));
        self.request(args)
    }

    /// `/DumpConfigToFiles <dir> [-Extension <name>]`: full dump to XML files.
    pub fn dump_config_to_files(&self, target_dir: &str, extension: Option<&str>) -> (r:
        ProcessRequest)
        ensures
            designer_request(
                r,
                self@.0,
                spec_base_args(self@.1, self@.2) + seq!["/DumpConfigToFiles"@, target_dir@]
                    + extension_args(extension),
            ),
            extension matches Some(e) ==> ({
                let a = strings_view(r.args@);
                a.len() >= 2 && a[a.len() - 2] == "-Extension"@ && a[a.len() - 1] == e@
            }),
            extension is None ==> strings_view(r.args@).last() == target_dir@,
    {
        let mut args = self.base_args();
        let ghost b = strings_view(args@);
        push_arg(&mut args, "/DumpConfigToFiles");
        push_arg(&mut args, target_dir);
        assert(strings_view(args@) =~= b + seq!["/DumpConfigToFiles"@, target_dir@]);
        push_extension(&mut args, extension);
        self.request(args)
    }

    fn command_with_flags(&self, command: &str, flags: &Vec<String>) -> (r: ProcessRequest)
        ensures
            designer_request(
                r,
                self@.0,
                spec_base_args(self@.1, self@.2) + seq![command@] + strings_view(flags@),
            ),
    {
        let mut args = self.base_args();
        let ghost b0 = strings_view(args@);
        push_arg(&mut args, command);
        let ghost b = strings_view(args@);
        assert(b == b0 + seq![command@]);
        let mut i: usize = 0;
        while i < flags.len()
            invariant
                i <= flags@.len(),
                strings_view(args@) == b + strings_view(flags@).take(i as int),
            decreases flags@.len() - i,
        {
            push_arg(&mut args, flags[i].as_str());
            assert(strings_view(flags@).take(i + 1) =~= strings_view(flags@).take(i as int).push(
                flags@[i as int]@,
            ));
            assert(strings_view(args@) =~= b + strings_view(flags@).take(i + 1));
            i += 1;
        }
        assert(strings_view(flags@).take(flags@.len() as int) =~= strings_view(flags@));
        assert(strings_view(args@) =~= spec_base_args(self@.1, self@.2) + seq![command@] + strings_view(flags@));
        self.request(args)
    }

    /// `/CheckConfig <flags...>`.
    pub fn check_config(&self, flags: &Vec<String>) -> (r: ProcessRequest)
        ensures
            designer_request(
                r,
                self@.0,
                spec_base_args(self@.1, self@.2) + seq!["/CheckConfig"@] + strings_view(flags@),
            ),
    {
        self.command_with_flags("/CheckConfig", flags)
    }

    /// `/CheckModules <flags...>`.
    pub fn check_modules(&self, flags: &Vec<String>) -> (r: ProcessRequest)
        ensures
            designer_request(
                r,
                self@.0,
                spec_base_args(self@.1, self@.2) + seq!["/CheckModules"@] + strings_view(flags@),
            ),
    {
        self.command_with_flags("/CheckModules", flags)
    }

    /// A run that exited non-zero is a failure carrying its code and stderr.
    pub fn check_result(result: ProcessResult) -> (r: Result<ProcessResult, DesignerError>)
        ensures
            result.exit_code == 0 ==> r == Ok::<ProcessResult, DesignerError>(result),
            result.exit_code != 0 ==> (r matches Err(DesignerError::ProcessFailed { code, stderr })
                && code == result.exit_code && stderr == result.stderr),
    {
        if !result.success() {
            return Err(DesignerError::ProcessFailed { code: result.exit_code, stderr: result.stderr });
        }
        Ok(result)
    }

    /// The outcome of running a Designer command: a run that could not be
    /// started is a spawn failure carrying the runner's error, a run that
    /// exited non-zero a failure carrying its code and stderr, any other run
    /// the result itself.
    pub fn finish_run(run: Result<ProcessResult, ProcessError>) -> (r: Result<ProcessResult, DesignerError>)
        ensures
            run matches Err(e) ==> r == Err::<ProcessResult, DesignerError>(DesignerError::Spawn(e)),
            run matches Ok(p) ==> (p.exit_code == 0 ==> r == Ok::<ProcessResult, DesignerError>(p)),
            run matches Ok(p) ==> (p.exit_code != 0 ==> (r matches Err(DesignerError::ProcessFailed { code, stderr })
                && code == p.exit_code && stderr == p.stderr)),
    {
        match run {
            Err(e) => Err(DesignerError::Spawn(e)),
            Ok(p) => Self::check_result(p),
        }
    }
}

} // verus!
