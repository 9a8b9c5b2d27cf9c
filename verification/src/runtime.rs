//! The boot files of a development run: each from its environment variable,
//! else from the application bundle or the development tree.
use crate::config::{resolve_path, resolve_spec};
use vstd::prelude::*;

verus! {

/// The files that a run boots from.
#[derive(Debug)]
pub struct RuntimePaths {
    pub kernel: Vec<char>,
    pub initrd: Vec<char>,
    pub dtb: Vec<char>,
    pub disk: Vec<char>,
}

/// Why the boot files cannot be found.
#[derive(Debug, Clone, Copy, PartialEq, Eq)]
pub enum PathsError {
    /// `--disk` is the last argument.
    MissingDiskValue,
    /// A bundled run names no disk.
    NoDisk,
}

/// What the environment says: each variable's value where it is set and not
/// empty.
#[derive(Debug)]
pub struct RuntimeEnv {
    pub kernel: Option<Vec<char>>,
    pub initrd: Option<Vec<char>>,
    pub dtb: Option<Vec<char>>,
    pub disk: Option<Vec<char>>,
}

/// "--disk".
pub open spec fn disk_flag() -> Seq<char> {
    seq!['-', '-', 'd', 'i', 's', 'k']
}

/// The value after the first `flag` among `args`: `Err` where `flag` is the
/// last argument.
pub open spec fn argument_spec(args: Seq<Seq<char>>, flag: Seq<char>) -> Result<Option<Seq<char>>, ()>
    decreases args.len(),
{
    if args.len() == 0 {
        Ok(None)
    } else if args[0] == flag {
        if args.len() >= 2 {
            Ok(Some(args[1]))
        } else {
            Err(())
        }
    } else {
        argument_spec(args.drop_first(), flag)
    }
}

fn same_chars(a: &[char], b: &[char]) -> (r: bool)
    ensures
        r == (a@ == b@),
{
    if a.len() != b.len() {
        return false;
    }
    let mut i: usize = 0;
    while i < a.len()
        invariant
            a@.len() == b@.len(),
            i <= a@.len(),
            a@.subrange(0, i as int) == b@.subrange(0, i as int),
        decreases a@.len() - i,
    {
        if a[i] != b[i] {
            assert(a@[i as int] != b@[i as int]);
            return false;
        }
        i = i + 1;
        proof {
            assert(a@.subrange(0, i as int) =~= a@.subrange(0, i - 1).push(a@[i - 1]));
            assert(b@.subrange(0, i as int) =~= b@.subrange(0, i - 1).push(b@[i - 1]));
        }
    }
    proof {
        assert(a@ =~= a@.subrange(0, i as int));
        assert(b@ =~= b@.subrange(0, i as int));
    }
    true
}

fn clone_chars(s: &Vec<char>) -> (r: Vec<char>)
    ensures
        r@ == s@,
{
    let mut r: Vec<char> = Vec::new();
    let mut i: usize = 0;
    while i < s.len()
        invariant
            i <= s@.len(),
            r@ == s@.subrange(0, i as int),
        decreases s@.len() - i,
    {
        r.push(s[i]);
        i = i + 1;
        proof {
            assert(r@ =~= s@.subrange(0, i as int));
        }
    }
    proof {
        assert(s@.subrange(0, i as int) =~= s@);
    }
    r
}

pub open spec fn views(args: Seq<Vec<char>>) -> Seq<Seq<char>> {
    args.map_values(|a: Vec<char>| a@)
}

/// The value that follows `flag` among the program arguments `args`; `Err`
/// where `flag` is the last argument.
fn find_argument(args: &Vec<Vec<char>>, flag: &[char]) -> (r: Result<Option<Vec<char>>, ()>)
    ensures
        match r {
            Ok(Some(v)) => argument_spec(views(args@), flag@) == Ok::<Option<Seq<char>>, ()>(Some(v@)),
            Ok(None) => argument_spec(views(args@), flag@) == Ok::<Option<Seq<char>>, ()>(None),
            Err(_) => argument_spec(views(args@), flag@) is Err,
        },
{
    let ghost all = views(args@);
    let mut i: usize = 0;
    proof {
        assert(all.skip(0) =~= all);
    }
    while i < args.len()
        invariant
            i <= args@.len(),
            all == views(args@),
            argument_spec(all.skip(i as int), flag@) == argument_spec(all, flag@),
        decreases args@.len() - i,
    {
        proof {
            assert(all.skip(i as int)[0] == args@[i as int]@);
            assert(all.skip(i as int).drop_first() =~= all.skip(i + 1));
        }
        if same_chars(args[i].as_slice(), flag) {
            if i + 1 < args.len() {
                proof {
                    assert(all.skip(i as int)[1] == args@[i + 1]@);
                }
                return Ok(Some(clone_chars(&args[i + 1])));
            }
            return Err(());
        }
        i = i + 1;
    }
    proof {
        assert(all.skip(i as int) =~= Seq::<Seq<char>>::empty());
    }
    Ok(None)
}

/// The value that follows the first `flag` among the program arguments
/// `args`, where `flag` is not the last of them.
pub fn argument_path(args: &Vec<Vec<char>>, flag: &[char]) -> (r: Option<Vec<char>>)
    requires
        argument_spec(views(args@), flag@) is Ok,
    ensures
        match r {
            Some(v) => argument_spec(views(args@), flag@) == Ok::<Option<Seq<char>>, ()>(Some(v@)),
            None => argument_spec(views(args@), flag@) == Ok::<Option<Seq<char>>, ()>(None),
        },
{
    match find_argument(args, flag) {
        Ok(v) => v,
        Err(_) => None,
    }
}

/// The disk of a development run that names none: "dev0.img". A bundled
/// run must name one.
pub fn default_disk_path(in_bundle: bool) -> (r: Vec<char>)
    requires
        !in_bundle,
    ensures
        r@ == seq!['d', 'e', 'v', '0', '.', 'i', 'm', 'g'],
{
    let p = vec!['d', 'e', 'v', '0', '.', 'i', 'm', 'g'];
    proof {
        assert(p@ =~= seq!['d', 'e', 'v', '0', '.', 'i', 'm', 'g']);
    }
    p
}

/// Why no disk can be chosen from the environment's disk `env_disk`, the
/// arguments `args` and whether the run is bundled, if so.
pub open spec fn disk_problem_spec(env_disk: Option<Seq<char>>, args: Seq<Seq<char>>, bundled: bool) -> Option<
    PathsError,
> {
    match env_disk {
        Some(_) => None,
        None => match argument_spec(args, disk_flag()) {
            Err(_) => Some(PathsError::MissingDiskValue),
            Ok(None) => if bundled {
                Some(PathsError::NoDisk)
            } else {
                None
            },
            Ok(Some(_)) => None,
        },
    }
}

/// `value` where set, else the resource.
pub open spec fn pick(value: Option<Seq<char>>, resources: Option<Seq<char>>, bundled: Seq<char>, dev: Seq<char>) -> Seq<char> {
    match value {
        Some(v) => v,
        None => match resources {
            Some(d) => resolve_spec(d, bundled),
            None => dev,
        },
    }
}

fn pick_exec(value: &Option<Vec<char>>, resources: Option<&[char]>, bundled: &[char], dev: &[char]) -> (r: Vec<char>)
    ensures
        r@ == pick(
            match value {
                Some(v) => Some(v@),
                None => None,
            },
            match resources {
                Some(d) => Some(d@),
                None => None,
            },
            bundled@,
            dev@,
        ),
{
    match value {
        Some(v) => clone_chars(v),
        None => match resources {
            Some(d) => resolve_path(d, bundled),
            None => {
                let mut r: Vec<char> = Vec::new();
                let mut i: usize = 0;
                while i < dev.len()
                    invariant
                        i <= dev@.len(),
                        r@ == dev@.subrange(0, i as int),
                    decreases dev@.len() - i,
                {
                    r.push(dev[i]);
                    i = i + 1;
                    proof {
                        assert(r@ =~= dev@.subrange(0, i as int));
                    }
                }
                proof {
                    assert(dev@.subrange(0, i as int) =~= dev@);
                }
                r
            },
        },
    }
}

impl RuntimePaths {
    /// Why the boot files cannot be found from the environment `env`, the
    /// program arguments `args` and `resources`, if so: a run that is to
    /// resolve its files must pass this.
    pub fn check(env: &RuntimeEnv, args: &Vec<Vec<char>>, resources: Option<&[char]>) -> (r: Option<PathsError>)
        ensures
            r == disk_problem_spec(crate::config::opt_view(env.disk), views(args@), resources is Some),
    {
        if env.disk.is_some() {
            return None;
        }
        let flag = vec!['-', '-', 'd', 'i', 's', 'k'];
        proof {
            assert(flag@ =~= disk_flag());
        }
        match find_argument(args, flag.as_slice()) {
            Err(_) => Some(PathsError::MissingDiskValue),
            Ok(Some(_)) => None,
            Ok(None) => if resources.is_some() {
                Some(PathsError::NoDisk)
            } else {
                None
            },
        }
    }

    /// Finds the boot files from the environment `env`, the program
    /// arguments `args` and `resources`, the bundle's kernel directory where
    /// the program runs from one.
    pub fn resolve(env: &RuntimeEnv, args: &Vec<Vec<char>>, resources: Option<&[char]>) -> (p: RuntimePaths)
        requires
            disk_problem_spec(crate::config::opt_view(env.disk), views(args@), resources is Some) is None,
        ensures
            ({
                let res = match resources {
                    Some(d) => Some(d@),
                    None => None,
                };
                let flag = argument_spec(views(args@), disk_flag());
                &&& p.kernel@ == pick(
                    crate::config::opt_view(env.kernel),
                    res,
                    seq!['I', 'm', 'a', 'g', 'e'],
                    "artifacts/kernel/Image"@,
                )
                &&& p.initrd@ == pick(
                    crate::config::opt_view(env.initrd),
                    res,
                    seq!['i', 'n', 'i', 't', 'r', 'd'],
                    "artifacts/kernel/initrd"@,
                )
                &&& p.dtb@ == pick(crate::config::opt_view(env.dtb), res, "varmint.dtb"@, "artifacts/guest.dtb"@)
                &&& p.disk@ == match env.disk {
                    Some(d) => d@,
                    None => match flag {
                        Ok(Some(v)) => v,
                        _ => seq!['d', 'e', 'v', '0', '.', 'i', 'm', 'g'],
                    },
                }
            }),
    {
        proof {
            reveal_strlit("artifacts/kernel/Image");
            reveal_strlit("artifacts/kernel/initrd");
            reveal_strlit("varmint.dtb");
            reveal_strlit("artifacts/guest.dtb");
        }
        let image = vec!['I', 'm', 'a', 'g', 'e'];
        let initrd = vec!['i', 'n', 'i', 't', 'r', 'd'];
        let dtb = vec!['v', 'a', 'r', 'm', 'i', 'n', 't', '.', 'd', 't', 'b'];
        let dev_image = vec![
            'a', 'r', 't', 'i', 'f', 'a', 'c', 't', 's', '/', 'k', 'e', 'r', 'n', 'e', 'l', '/', 'I', 'm', 'a', 'g', 'e',
        ];
        let dev_initrd = vec![
            'a', 'r', 't', 'i', 'f', 'a', 'c', 't', 's', '/', 'k', 'e', 'r', 'n', 'e', 'l', '/', 'i', 'n', 'i', 't', 'r', 'd',
        ];
        let dev_dtb = vec![
            'a', 'r', 't', 'i', 'f', 'a', 'c', 't', 's', '/', 'g', 'u', 'e', 's', 't', '.', 'd', 't', 'b',
        ];
        let flag = vec!['-', '-', 'd', 'i', 's', 'k'];
        proof {
            assert(image@ =~= seq!['I', 'm', 'a', 'g', 'e']);
            assert(initrd@ =~= seq!['i', 'n', 'i', 't', 'r', 'd']);
            assert(dtb@ =~= "varmint.dtb"@);
            assert(dev_image@ =~= "artifacts/kernel/Image"@);
            assert(dev_initrd@ =~= "artifacts/kernel/initrd"@);
            assert(dev_dtb@ =~= "artifacts/guest.dtb"@);
            assert(flag@ =~= disk_flag());
        }
        let kernel = pick_exec(&env.kernel, resources, image.as_slice(), dev_image.as_slice());
        let initrd = pick_exec(&env.initrd, resources, initrd.as_slice(), dev_initrd.as_slice());
        let dtb = pick_exec(&env.dtb, resources, dtb.as_slice(), dev_dtb.as_slice());
        let disk = match &env.disk {
            Some(d) => clone_chars(d),
            None => match argument_path(args, flag.as_slice()) {
                Some(v) => v,
                None => default_disk_path(resources.is_some()),
            },
        };
        RuntimePaths { kernel, initrd, dtb, disk }
    }
}

} // verus!
