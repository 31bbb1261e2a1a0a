//! USB gadgets in configfs: what to create, write, link and remove under
//! `/sys/kernel/config/usb_gadget` to set up a gadget with its functions
//! and configurations, attach it to a device controller, and take it down.
//! The library computes the file system operations; the caller performs
//! them in order and stops at the first that fails.

use vstd::prelude::*;
use crate::text::{
    chars_of, decimal, has_prefix, push_decimal, push_str, starts_with, string_of, trim_end,
    trim_end_chars,
};

verus! {

/// `Path::join` on Unix: an absolute component replaces the path; otherwise
/// a `'/'` is put between the two unless the path is empty or ends in one.
pub open spec fn path_join(base: Seq<char>, comp: Seq<char>) -> Seq<char> {
    if comp.len() > 0 && comp[0] == '/' {
        comp
    } else if base.len() > 0 && base.last() != '/' {
        base + seq!['/'] + comp
    } else {
        base + comp
    }
}

/// `base` joined with `comp`.
pub fn join(base: &str, comp: &str) -> (r: String)
    ensures
        r@ == path_join(base@, comp@),
{
    let b = chars_of(base);
    let c = chars_of(comp);
    let mut v: Vec<char> = Vec::new();
    if c.len() > 0 && c[0] == '/' {
        return string_of(c.as_slice());
    }
    push_str(&mut v, base);
    if b.len() > 0 && b[b.len() - 1] != '/' {
        v.push('/');
    }
    push_str(&mut v, comp);
    assert(v@ =~= path_join(base@, comp@));
    string_of(v.as_slice())
}

/// A file system operation.
#[derive(Debug)]
pub enum FsOp {
    /// Create a directory and its missing parents.
    CreateDirAll(String),
    /// Write the content to the file at the path.
    Write(String, String),
    /// Create a symbolic link at the second path to the first.
    Symlink(String, String),
    RemoveFile(String),
    RemoveDir(String),
}

/// What a file system operation is.
pub ghost enum FsOpSpec {
    CreateDirAll(Seq<char>),
    Write(Seq<char>, Seq<char>),
    Symlink(Seq<char>, Seq<char>),
    RemoveFile(Seq<char>),
    RemoveDir(Seq<char>),
}

impl View for FsOp {
    type V = FsOpSpec;

    open spec fn view(&self) -> FsOpSpec {
        match self {
            FsOp::CreateDirAll(p) => FsOpSpec::CreateDirAll(p@),
            FsOp::Write(p, c) => FsOpSpec::Write(p@, c@),
            FsOp::Symlink(s, d) => FsOpSpec::Symlink(s@, d@),
            FsOp::RemoveFile(p) => FsOpSpec::RemoveFile(p@),
            FsOp::RemoveDir(p) => FsOpSpec::RemoveDir(p@),
        }
    }
}

pub open spec fn ops_view(ops: Seq<FsOp>) -> Seq<FsOpSpec> {
    ops.map_values(|o: FsOp| o@)
}

/// Where USB gadgets live.
pub open spec fn gadget_root() -> Seq<char> {
    "/sys/kernel/config/usb_gadget"@
}

/// The directory of the gadget `name`.
pub open spec fn gadget_path(name: Seq<char>) -> Seq<char> {
    path_join(gadget_root(), name)
}

/// The English strings directory under `base`.
pub open spec fn strings_path(base: Seq<char>) -> Seq<char> {
    path_join(path_join(base, "strings"@), "0x409"@)
}

/// The name of a new gadget when `count` gadgets exist: `g<count + 1>`.
pub open spec fn gadget_name_spec(count: nat) -> Seq<char> {
    seq!['g'] + decimal(count + 1)
}

/// Setting up gadget `name`: its directory, the Linux Foundation vendor
/// and product ids, the English serial number, manufacturer and product
/// strings, and the directories for functions and configurations.
pub open spec fn create_ops_spec(
    name: Seq<char>,
    serialnumber: Seq<char>,
    manufacturer: Seq<char>,
    product: Seq<char>,
) -> Seq<FsOpSpec> {
    let base = gadget_path(name);
    let strings = strings_path(base);
    seq![
        FsOpSpec::CreateDirAll(base),
        FsOpSpec::Write(path_join(base, "idVendor"@), "0x1d6b"@),
        FsOpSpec::Write(path_join(base, "idProduct"@), "0x0104"@),
        FsOpSpec::CreateDirAll(strings),
        FsOpSpec::Write(path_join(strings, "serialnumber"@), serialnumber),
        FsOpSpec::Write(path_join(strings, "manufacturer"@), manufacturer),
        FsOpSpec::Write(path_join(strings, "product"@), product),
        FsOpSpec::CreateDirAll(path_join(base, "functions"@)),
        FsOpSpec::CreateDirAll(path_join(base, "configs"@)),
    ]
}

/// Whether a directory entry is counted: every one when there is no
/// prefix, else those whose name (of at least two bytes) starts with it.
pub open spec fn counted(name: &str, prefix: Seq<char>) -> bool {
    prefix.len() == 0 || (name.len() >= 2 && has_prefix(name@, prefix))
}

/// How many of `names` are counted.
pub open spec fn count_spec(names: Seq<&str>, prefix: Seq<char>) -> nat
    decreases names.len(),
{
    if names.len() == 0 {
        0
    } else {
        count_spec(names.drop_last(), prefix) + if counted(names.last(), prefix) {
            1nat
        } else {
            0
        }
    }
}

/// Counts the directories `names` (see `counted`).
pub fn count_entries(names: &[&str], prefix: &str) -> (n: u32)
    requires
        names@.len() <= u32::MAX,
    ensures
        n == count_spec(names@, prefix@),
{
    let p = chars_of(prefix);
    let mut count: u32 = 0;
    let mut i: usize = 0;
    while i < names.len()
        invariant
            i <= names@.len() <= u32::MAX,
            p@ == prefix@,
            count == count_spec(names@.take(i as int), prefix@),
            count <= i,
        decreases names@.len() - i,
    {
        assert(names@.take(i + 1).drop_last() =~= names@.take(i as int));
        let name = names[i];
        let c = if p.len() == 0 {
            true
        } else {
            name.len() >= 2 && starts_with(&chars_of(name), &p)
        };
        assert(names@.take(i + 1).last() == name);
        assert(c == counted(name, prefix@));
        if c {
            count = count + 1;
        }
        i = i + 1;
    }
    assert(names@.take(i as int) =~= names@);
    count
}

/// The first UDC (device controller) of the list, if there is one.
pub fn first_interface(interfaces: &[String]) -> (r: Option<String>)
    ensures
        match r {
            Some(f) => interfaces@.len() > 0 && f@ == interfaces@[0]@,
            None => interfaces@.len() == 0,
        },
{
    if interfaces.len() > 0 {
        Some(string_of(chars_of(interfaces[0].as_str()).as_slice()))
    } else {
        None
    }
}

/// Whether the list of UDCs has one.
pub fn has_interfaces(interfaces: &[String]) -> (b: bool)
    ensures
        b == (interfaces@.len() > 0),
{
    interfaces.len() != 0
}

/// The UDC that the content of a gadget's `UDC` file names, if any: the
/// content without trailing white space, when something is left.
pub fn attached(udc_content: &str) -> (r: Option<String>)
    ensures
        match r {
            Some(u) => trim_end(udc_content@).len() > 0 && u@ == trim_end(udc_content@),
            None => trim_end(udc_content@).len() == 0,
        },
{
    let t = trim_end_chars(&chars_of(udc_content));
    if t.len() != 0 {
        Some(string_of(t.as_slice()))
    } else {
        None
    }
}

fn copy(s: &String) -> (r: String)
    ensures
        r@ == s@,
{
    string_of(chars_of(s.as_str()).as_slice())
}

/// A USB gadget in configfs.
pub struct Gadget {
    name: String,
}

/// What to do to attach a gadget to the UDC `udc`: write its name to the
/// gadget's `UDC` file.
pub open spec fn attach_op_spec(name: Seq<char>, udc: Seq<char>) -> FsOpSpec {
    FsOpSpec::Write(path_join(gadget_path(name), "UDC"@), udc)
}

/// The texts of a list of strings.
pub open spec fn texts(v: Seq<String>) -> Seq<Seq<char>> {
    v.map_values(|s: String| s@)
}

/// The name of a new configuration when `count` exist: `c.<count + 1>`.
pub open spec fn config_name_spec(count: nat) -> Seq<char> {
    "c."@ + decimal(count + 1)
}

/// Adding configuration `config` labelled `label` to gadget `gname`: its
/// directory with English strings holding the label, and a link in it to
/// each of the gadget's `functions`.
pub open spec fn add_config_ops_spec(
    gname: Seq<char>,
    config: Seq<char>,
    label: Seq<char>,
    functions: Seq<Seq<char>>,
) -> Seq<FsOpSpec> {
    let configs = path_join(gadget_path(gname), "configs"@);
    let base = path_join(configs, config);
    let strings = strings_path(base);
    seq![
        FsOpSpec::CreateDirAll(configs),
        FsOpSpec::CreateDirAll(base),
        FsOpSpec::CreateDirAll(strings),
        FsOpSpec::Write(path_join(strings, "configuration"@), label),
    ] + functions.map_values(
        |f: Seq<char>|
            FsOpSpec::Symlink(
                path_join(path_join(gadget_path(gname), "functions"@), f),
                path_join(base, f),
            ),
    )
}

/// Removing configuration `config` of gadget `gname`, whose function links
/// are `links`: the links, the strings directory, the configuration.
pub open spec fn remove_config_ops_spec(
    gname: Seq<char>,
    config: Seq<char>,
    links: Seq<Seq<char>>,
) -> Seq<FsOpSpec> {
    let cfg = path_join(path_join(gadget_path(gname), "configs"@), config);
    links.map_values(|l: Seq<char>| FsOpSpec::RemoveFile(path_join(cfg, l))) + seq![
        FsOpSpec::RemoveDir(strings_path(cfg)),
        FsOpSpec::RemoveDir(cfg),
    ]
}

/// The directory of configuration `config` of gadget `gname`.
pub open spec fn config_path(gname: Seq<char>, config: Seq<char>) -> Seq<char> {
    path_join(path_join(gadget_path(gname), "configs"@), config)
}

/// Removing a configuration first removes every one of its links, in the
/// order given and each exactly once, and only then its strings directory
/// and the configuration's own directory.
pub proof fn lemma_remove_config_removes_every_link(
    gname: Seq<char>,
    config: Seq<char>,
    links: Seq<Seq<char>>,
)
    ensures
        remove_config_ops_spec(gname, config, links).len() == links.len() + 2,
        forall|k: int|
            0 <= k < links.len() ==> remove_config_ops_spec(gname, config, links)[k]
                == FsOpSpec::RemoveFile(path_join(config_path(gname, config), #[trigger] links[k])),
        forall|k: int|
            0 <= k < links.len() ==> remove_config_ops_spec(gname, config, links).contains(
                FsOpSpec::RemoveFile(path_join(config_path(gname, config), #[trigger] links[k])),
            ),
        remove_config_ops_spec(gname, config, links)[links.len() as int] == FsOpSpec::RemoveDir(
            strings_path(config_path(gname, config)),
        ),
        remove_config_ops_spec(gname, config, links)[links.len() + 1int] == FsOpSpec::RemoveDir(
            config_path(gname, config),
        ),
{
    let ops = remove_config_ops_spec(gname, config, links);
    assert forall|k: int| 0 <= k < links.len() implies ops.contains(
        FsOpSpec::RemoveFile(path_join(config_path(gname, config), #[trigger] links[k])),
    ) by {
        assert(ops[k] == FsOpSpec::RemoveFile(path_join(config_path(gname, config), links[k])));
    }
}

/// What one part of a flattened sequence holds, the whole holds.
proof fn lemma_flatten_contains<A>(parts: Seq<Seq<A>>, i: int, x: A)
    requires
        0 <= i < parts.len(),
        parts[i].contains(x),
    ensures
        parts.flatten().contains(x),
    decreases parts.len(),
{
    let j = choose|j: int| 0 <= j < parts[i].len() && parts[i][j] == x;
    if i == 0 {
        assert(parts.flatten() == parts.first() + parts.drop_first().flatten());
        assert((parts.first() + parts.drop_first().flatten())[j] == x);
    } else {
        lemma_flatten_contains(parts.drop_first(), i - 1, x);
        let rest = parts.drop_first().flatten();
        let k = choose|k: int| 0 <= k < rest.len() && rest[k] == x;
        assert((parts.first() + rest)[parts.first().len() + k] == x);
    }
}

/// Taking a gadget down removes every link of every configuration given.
pub proof fn lemma_cleanup_removes_every_link(
    gname: Seq<char>,
    configs: Seq<(Seq<char>, Seq<Seq<char>>)>,
    functions: Seq<Seq<char>>,
    i: int,
    k: int,
)
    requires
        0 <= i < configs.len(),
        0 <= k < configs[i].1.len(),
    ensures
        cleanup_ops_spec(gname, configs, functions).contains(
            FsOpSpec::RemoveFile(path_join(config_path(gname, configs[i].0), configs[i].1[k])),
        ),
{
    let op = FsOpSpec::RemoveFile(path_join(config_path(gname, configs[i].0), configs[i].1[k]));
    let parts = configs.map_values(
        |c: (Seq<char>, Seq<Seq<char>>)| remove_config_ops_spec(gname, c.0, c.1),
    );
    lemma_remove_config_removes_every_link(gname, configs[i].0, configs[i].1);
    assert(parts[i] == remove_config_ops_spec(gname, configs[i].0, configs[i].1));
    assert(parts[i].contains(op));
    lemma_flatten_contains(parts, i, op);
    let flat = parts.flatten();
    let head = seq![attach_op_spec(gname, ""@)];
    let tail = functions.map_values(|f: Seq<char>| remove_function_op_spec(gname, f)) + seq![
        FsOpSpec::RemoveDir(strings_path(gadget_path(gname))),
        FsOpSpec::RemoveDir(gadget_path(gname)),
    ];
    let j = choose|j: int| 0 <= j < flat.len() && flat[j] == op;
    assert(cleanup_ops_spec(gname, configs, functions) == head + flat + tail);
    assert((head + flat + tail)[1 + j] == op);
}

/// Removing function `function` of gadget `gname`.
pub open spec fn remove_function_op_spec(gname: Seq<char>, function: Seq<char>) -> FsOpSpec {
    FsOpSpec::RemoveDir(path_join(path_join(gadget_path(gname), "functions"@), function))
}

/// Taking gadget `gname` down: detach it, remove each configuration (with
/// its links), each function, the strings and the gadget's directory.
pub open spec fn cleanup_ops_spec(
    gname: Seq<char>,
    configs: Seq<(Seq<char>, Seq<Seq<char>>)>,
    functions: Seq<Seq<char>>,
) -> Seq<FsOpSpec> {
    seq![attach_op_spec(gname, ""@)] + configs.map_values(
        |c: (Seq<char>, Seq<Seq<char>>)| remove_config_ops_spec(gname, c.0, c.1),
    ).flatten() + functions.map_values(|f: Seq<char>| remove_function_op_spec(gname, f)) + seq![
        FsOpSpec::RemoveDir(strings_path(gadget_path(gname))),
        FsOpSpec::RemoveDir(gadget_path(gname)),
    ]
}

impl Gadget {
    pub closed spec fn name_of(&self) -> Seq<char> {
        self.name@
    }

    /// The gadget that is created when `count` gadgets exist, and the
    /// operations that create it (see `create_ops_spec`).
    pub fn create(count: u32, serialnumber: &str, manufacturer: &str, product: &str) -> (r: (
        Gadget,
        Vec<FsOp>,
    ))
        requires
            count < u32::MAX,
        ensures
            r.0.name_of() == gadget_name_spec(count as nat),
            ops_view(r.1@) == create_ops_spec(
                r.0.name_of(),
                serialnumber@,
                manufacturer@,
                product@,
            ),
    {
        let mut n: Vec<char> = Vec::new();
        n.push('g');
        push_decimal((count + 1) as u64, &mut n);
        assert(n@ =~= gadget_name_spec(count as nat));
        let name = string_of(n.as_slice());
        let base = join("/sys/kernel/config/usb_gadget", name.as_str());
        let strings = join(join(base.as_str(), "strings").as_str(), "0x409");
        let mut ops: Vec<FsOp> = Vec::new();
        ops.push(FsOp::CreateDirAll(string_of(chars_of(base.as_str()).as_slice())));
        ops.push(FsOp::Write(join(base.as_str(), "idVendor"), string_of(chars_of("0x1d6b").as_slice())));
        ops.push(FsOp::Write(join(base.as_str(), "idProduct"), string_of(chars_of("0x0104").as_slice())));
        ops.push(FsOp::CreateDirAll(string_of(chars_of(strings.as_str()).as_slice())));
        ops.push(FsOp::Write(join(strings.as_str(), "serialnumber"), string_of(chars_of(serialnumber).as_slice())));
        ops.push(FsOp::Write(join(strings.as_str(), "manufacturer"), string_of(chars_of(manufacturer).as_slice())));
        ops.push(FsOp::Write(join(strings.as_str(), "product"), string_of(chars_of(product).as_slice())));
        ops.push(FsOp::CreateDirAll(join(base.as_str(), "functions")));
        ops.push(FsOp::CreateDirAll(join(base.as_str(), "configs")));
        let g = Gadget { name };
        assert(ops_view(ops@) =~= create_ops_spec(g.name_of(), serialnumber@, manufacturer@, product@));
        (g, ops)
    }

    /// The gadget's name.
    pub fn name(&self) -> (n: &str)
        ensures
            n@ == self.name_of(),
    {
        self.name.as_str()
    }

    /// The gadget's directory (the caller checks that it exists).
    pub fn path(&self) -> (p: String)
        ensures
            p@ == gadget_path(self.name_of()),
    {
        join("/sys/kernel/config/usb_gadget", self.name.as_str())
    }

    /// The directory of the gadget's configurations.
    pub fn configs(&self) -> (p: String)
        ensures
            p@ == path_join(gadget_path(self.name_of()), "configs"@),
    {
        join(self.path().as_str(), "configs")
    }

    /// The directory of the gadget's functions.
    pub fn functions(&self) -> (p: String)
        ensures
            p@ == path_join(gadget_path(self.name_of()), "functions"@),
    {
        join(self.path().as_str(), "functions")
    }

    /// Adding function `function` with instance `name`: the function's
    /// directory is `<function>.<name>` under the functions directory.
    pub fn add_function(&self, function: &str, name: &str) -> (r: (String, Vec<FsOp>))
        ensures
            r.0@ == function@ + seq!['.'] + name@,
            ops_view(r.1@) == seq![
                FsOpSpec::CreateDirAll(path_join(gadget_path(self.name_of()), "functions"@)),
                FsOpSpec::CreateDirAll(
                    path_join(path_join(gadget_path(self.name_of()), "functions"@), r.0@),
                ),
            ],
    {
        let mut b: Vec<char> = Vec::new();
        push_str(&mut b, function);
        b.push('.');
        push_str(&mut b, name);
        let base = string_of(b.as_slice());
        let functions = self.functions();
        let mut ops: Vec<FsOp> = Vec::new();
        ops.push(FsOp::CreateDirAll(string_of(chars_of(functions.as_str()).as_slice())));
        ops.push(FsOp::CreateDirAll(join(functions.as_str(), base.as_str())));
        assert(ops_view(ops@) =~= seq![
            FsOpSpec::CreateDirAll(path_join(gadget_path(self.name_of()), "functions"@)),
            FsOpSpec::CreateDirAll(
                path_join(path_join(gadget_path(self.name_of()), "functions"@), base@),
            ),
        ]);
        (base, ops)
    }

    /// Adding a configuration labelled `label` that links `functions`, when
    /// `count` configurations exist: its name and the operations (see
    /// `add_config_ops_spec`).
    pub fn add_config(&self, label: &str, functions: &Vec<String>, count: u32) -> (r: (
        String,
        Vec<FsOp>,
    ))
        requires
            count < u32::MAX,
        ensures
            r.0@ == config_name_spec(count as nat),
            ops_view(r.1@) == add_config_ops_spec(self.name_of(), r.0@, label@, texts(functions@)),
    {
        let mut c: Vec<char> = Vec::new();
        push_str(&mut c, "c.");
        push_decimal((count + 1) as u64, &mut c);
        assert(c@ =~= config_name_spec(count as nat));
        let config = string_of(c.as_slice());
        let configs = self.configs();
        let fdir = self.functions();
        let base = join(configs.as_str(), config.as_str());
        let strings = join(join(base.as_str(), "strings").as_str(), "0x409");
        let mut ops: Vec<FsOp> = Vec::new();
        ops.push(FsOp::CreateDirAll(copy(&configs)));
        ops.push(FsOp::CreateDirAll(copy(&base)));
        ops.push(FsOp::CreateDirAll(copy(&strings)));
        ops.push(FsOp::Write(join(strings.as_str(), "configuration"), string_of(chars_of(label).as_slice())));
        let ghost head = ops_view(ops@);
        let ghost fs = texts(functions@);
        let ghost links = fs.map_values(
            |f: Seq<char>|
                FsOpSpec::Symlink(
                    path_join(path_join(gadget_path(self.name_of()), "functions"@), f),
                    path_join(base@, f),
                ),
        );
        let mut i: usize = 0;
        while i < functions.len()
            invariant
                i <= functions@.len(),
                fs == texts(functions@),
                fdir@ == path_join(gadget_path(self.name_of()), "functions"@),
                links.len() == fs.len(),
                forall|k: int| 0 <= k < fs.len() ==> #[trigger] links[k] == FsOpSpec::Symlink(
                    path_join(fdir@, fs[k]),
                    path_join(base@, fs[k]),
                ),
                ops_view(ops@) == head + links.take(i as int),
            decreases functions@.len() - i,
        {
            let f = functions[i].as_str();
            let ghost before = ops_view(ops@);
            ops.push(FsOp::Symlink(join(fdir.as_str(), f), join(base.as_str(), f)));
            assert(ops_view(ops@) =~= before.push(links[i as int]));
            assert(links.take(i + 1) =~= links.take(i as int).push(links[i as int]));
            i = i + 1;
        }
        assert(links.take(i as int) =~= links);
        assert(ops_view(ops@) =~= add_config_ops_spec(self.name_of(), config@, label@, fs));
        (config, ops)
    }

    /// The operations that remove configuration `config`, whose function
    /// links are `links`.
    pub fn remove_config(&self, config: &str, links: &Vec<String>) -> (ops: Vec<FsOp>)
        ensures
            ops_view(ops@) == remove_config_ops_spec(self.name_of(), config@, texts(links@)),
            ops@.len() == links@.len() + 2,
            forall|k: int|
                0 <= k < links@.len() ==> (#[trigger] ops@[k])@ == FsOpSpec::RemoveFile(
                    path_join(config_path(self.name_of(), config@), links@[k]@),
                ),
    {
        let cfg = join(self.configs().as_str(), config);
        let ghost ls = texts(links@);
        let ghost removes = ls.map_values(|l: Seq<char>| FsOpSpec::RemoveFile(path_join(cfg@, l)));
        let mut ops: Vec<FsOp> = Vec::new();
        let mut i: usize = 0;
        while i < links.len()
            invariant
                i <= links@.len(),
                ls == texts(links@),
                removes.len() == ls.len(),
                forall|k: int| 0 <= k < ls.len() ==> #[trigger] removes[k] == FsOpSpec::RemoveFile(
                    path_join(cfg@, ls[k]),
                ),
                ops_view(ops@) == removes.take(i as int),
            decreases links@.len() - i,
        {
            let ghost before = ops_view(ops@);
            ops.push(FsOp::RemoveFile(join(cfg.as_str(), links[i].as_str())));
            assert(ops_view(ops@) =~= before.push(removes[i as int]));
            assert(removes.take(i + 1) =~= removes.take(i as int).push(removes[i as int]));
            i = i + 1;
        }
        assert(removes.take(i as int) =~= removes);
        let ghost mid = ops_view(ops@);
        ops.push(FsOp::RemoveDir(join(join(cfg.as_str(), "strings").as_str(), "0x409")));
        ops.push(FsOp::RemoveDir(copy(&cfg)));
        assert(ops_view(ops@) =~= remove_config_ops_spec(self.name_of(), config@, ls));
        proof {
            lemma_remove_config_removes_every_link(self.name_of(), config@, ls);
            assert forall|k: int| 0 <= k < links@.len() implies (#[trigger] ops@[k])@
                == FsOpSpec::RemoveFile(path_join(config_path(self.name_of(), config@), links@[k]@)) by {
                assert(ops_view(ops@)[k] == ops@[k]@);
                assert(ls[k] == links@[k]@);
            }
        }
        ops
    }

    /// The operation that removes function `function`.
    pub fn remove_function(&self, function: &str) -> (op: FsOp)
        ensures
            op@ == remove_function_op_spec(self.name_of(), function@),
    {
        FsOp::RemoveDir(join(self.functions().as_str(), function))
    }

    /// The operations that take the gadget down, given its configurations
    /// (each with its function links) and its functions (see
    /// `cleanup_ops_spec`).
    pub fn cleanup(&self, configs: &Vec<(String, Vec<String>)>, functions: &Vec<String>) -> (ops:
        Vec<FsOp>)
        ensures
            ops_view(ops@) == cleanup_ops_spec(
                self.name_of(),
                configs@.map_values(|c: (String, Vec<String>)| (c.0@, texts(c.1@))),
                texts(functions@),
            ),
            forall|i: int, k: int|
                0 <= i < configs@.len() && 0 <= k < configs@[i].1@.len() ==> ops_view(ops@).contains(
                    FsOpSpec::RemoveFile(
                        path_join(config_path(self.name_of(), configs@[i].0@), #[trigger] configs@[i].1@[k]@),
                    ),
                ),
    {
        let ghost cs = configs@.map_values(|c: (String, Vec<String>)| (c.0@, texts(c.1@)));
        let ghost parts = cs.map_values(
            |c: (Seq<char>, Seq<Seq<char>>)| remove_config_ops_spec(self.name_of(), c.0, c.1),
        );
        let mut ops: Vec<FsOp> = Vec::new();
        ops.push(self.detach());
        let ghost head = ops_view(ops@);
        assert(head =~= seq![attach_op_spec(self.name_of(), ""@)]);
        let mut i: usize = 0;
        assert(parts.take(0) =~= Seq::<Seq<FsOpSpec>>::empty());
        assert(Seq::<Seq<FsOpSpec>>::empty().flatten() =~= Seq::<FsOpSpec>::empty());
        while i < configs.len()
            invariant
                i <= configs@.len(),
                parts.len() == configs@.len(),
                forall|k: int| 0 <= k < configs@.len() ==> #[trigger] parts[k] == remove_config_ops_spec(
                    self.name_of(),
                    configs@[k].0@,
                    texts(configs@[k].1@),
                ),
                ops_view(ops@) == head + parts.take(i as int).flatten(),
            decreases configs@.len() - i,
        {
            let mut more = self.remove_config(configs[i].0.as_str(), &configs[i].1);
            let ghost before = ops_view(ops@);
            let ghost m = ops_view(more@);
            ops.append(&mut more);
            assert(ops_view(ops@) =~= before + m);
            proof {
                parts.take(i as int).lemma_flatten_push(parts[i as int]);
                assert(parts.take(i + 1) =~= parts.take(i as int).push(parts[i as int]));
            }
            i = i + 1;
        }
        assert(parts.take(i as int) =~= parts);
        let ghost after_configs = ops_view(ops@);
        let ghost rf = texts(functions@).map_values(
            |f: Seq<char>| remove_function_op_spec(self.name_of(), f),
        );
        let mut j: usize = 0;
        while j < functions.len()
            invariant
                j <= functions@.len(),
                rf.len() == functions@.len(),
                forall|k: int| 0 <= k < functions@.len() ==> #[trigger] rf[k]
                    == remove_function_op_spec(self.name_of(), functions@[k]@),
                ops_view(ops@) == after_configs + rf.take(j as int),
            decreases functions@.len() - j,
        {
            let ghost before = ops_view(ops@);
            ops.push(self.remove_function(functions[j].as_str()));
            assert(ops_view(ops@) =~= before.push(rf[j as int]));
            assert(rf.take(j + 1) =~= rf.take(j as int).push(rf[j as int]));
            j = j + 1;
        }
        assert(rf.take(j as int) =~= rf);
        let p = self.path();
        ops.push(FsOp::RemoveDir(join(join(p.as_str(), "strings").as_str(), "0x409")));
        ops.push(FsOp::RemoveDir(p));
        assert(ops_view(ops@) =~= cleanup_ops_spec(self.name_of(), cs, texts(functions@)));
        proof {
            assert forall|i: int, k: int|
                0 <= i < configs@.len() && 0 <= k < configs@[i].1@.len() implies ops_view(ops@).contains(
                FsOpSpec::RemoveFile(
                    path_join(config_path(self.name_of(), configs@[i].0@), #[trigger] configs@[i].1@[k]@),
                ),
            ) by {
                assert(cs[i] == (configs@[i].0@, texts(configs@[i].1@)));
                assert(cs[i].1[k] == configs@[i].1@[k]@);
                lemma_cleanup_removes_every_link(self.name_of(), cs, texts(functions@), i, k);
            }
        }
        ops
    }

    /// The operation that attaches the gadget to the UDC `udc`.
    pub fn attach(&self, udc: &str) -> (op: FsOp)
        ensures
            op@ == attach_op_spec(self.name_of(), udc@),
    {
        FsOp::Write(join(self.path().as_str(), "UDC"), string_of(chars_of(udc).as_slice()))
    }

    /// The operation that detaches the gadget: attaching it to "".
    pub fn detach(&self) -> (op: FsOp)
        ensures
            op@ == attach_op_spec(self.name_of(), ""@),
    {
        self.attach("")
    }
}

} // verus!
