//! What a new program is started with.

use vstd::prelude::*;
use vstd::utf8::*;
use crate::spawn::error;
use crate::spawn::error::{SysError, EINVAL};
use crate::sys::ctext::CText;

verus! {

/// Owned argument vector.
#[derive(Debug)]
pub enum ExecArgv {
    /// Dynamically allocated strings.
    Dynamic(Vec<CText>),
}

/// Validated execution context for process spawning: the arguments, at least
/// one, and where they are given the environment and the working directory.
#[derive(Debug)]
pub struct ExecContext {
    argv: ExecArgv,
    envp: Option<Vec<CText>>,
    cwd: Option<CText>,
}

/// The bytes that a new program is started with.
pub struct Launch {
    pub argv: Seq<Seq<u8>>,
    pub envp: Option<Seq<Seq<u8>>>,
    pub cwd: Option<Seq<u8>>,
}

/// The bytes of each text.
pub open spec fn bytes_of(texts: Seq<CText>) -> Seq<Seq<u8>> {
    Seq::new(texts.len(), |i: int| texts[i]@)
}

/// The encoding of each string.
pub open spec fn encoded(strings: Seq<String>) -> Seq<Seq<u8>> {
    Seq::new(strings.len(), |i: int| encode_utf8(strings[i]@))
}

/// Whether a string holds the NUL character.
pub open spec fn any_nul(strings: Seq<String>) -> bool {
    exists|i: int| 0 <= i < strings.len() && (#[trigger] strings[i])@.contains('\0')
}

impl View for ExecContext {
    type V = Launch;

    closed spec fn view(&self) -> Launch {
        Launch {
            argv: bytes_of(self.argv->Dynamic_0@),
            envp: match self.envp {
                Some(v) => Some(bytes_of(v@)),
                None => None,
            },
            cwd: match self.cwd {
                Some(c) => Some(c@),
                None => None,
            },
        }
    }
}

/// The given strings as text for the kernel, where none holds a NUL.
fn to_ctexts(strings: &Vec<String>) -> (r: Option<Vec<CText>>)
    ensures
        r is None <==> any_nul(strings@),
        r matches Some(v) ==> bytes_of(v@) == encoded(strings@),
{
    let mut out: Vec<CText> = Vec::new();
    let mut i: usize = 0;
    while i < strings.len()
        invariant
            i <= strings@.len(),
            out@.len() == i,
            forall|j: int| 0 <= j < i ==> !(#[trigger] strings@[j])@.contains('\0'),
            forall|j: int| 0 <= j < i ==> (#[trigger] out@[j])@ == encode_utf8(strings@[j]@),
        decreases strings@.len() - i,
    {
        match CText::new(strings[i].as_str()) {
            Some(c) => {
                out.push(c);
            },
            None => {
                assert(strings@[i as int]@.contains('\0'));
                return None;
            },
        }
        i = i + 1;
    }
    assert(bytes_of(out@) =~= encoded(strings@));
    Some(out)
}

/// A copy of each text.
fn copy_of(texts: &Vec<CText>) -> (r: Vec<CText>)
    ensures
        bytes_of(r@) == bytes_of(texts@),
{
    let mut out: Vec<CText> = Vec::new();
    let mut i: usize = 0;
    while i < texts.len()
        invariant
            i <= texts@.len(),
            out@.len() == i,
            forall|j: int| 0 <= j < i ==> (#[trigger] out@[j])@ == texts@[j]@,
        decreases texts@.len() - i,
    {
        out.push(texts[i].clone());
        i = i + 1;
    }
    assert(bytes_of(out@) =~= bytes_of(texts@));
    out
}

impl Clone for ExecContext {
    fn clone(&self) -> (r: Self)
        ensures
            r@ == self@,
    {
        proof {
            use_type_invariant(self);
        }
        let argv = match &self.argv {
            ExecArgv::Dynamic(v) => copy_of(v),
        };
        let envp = match &self.envp {
            Some(v) => Some(copy_of(v)),
            None => None,
        };
        let cwd = match &self.cwd {
            Some(c) => Some(c.clone()),
            None => None,
        };
        assert(bytes_of(argv@).len() == bytes_of(self.argv->Dynamic_0@).len());
        ExecContext { argv: ExecArgv::Dynamic(argv), envp, cwd }
    }
}

impl ExecContext {
    #[verifier::type_invariant]
    spec fn inv(self) -> bool {
        self.argv->Dynamic_0@.len() > 0
    }

    /// Builds a validated execution context.
    ///
    /// Rejections are explicit: an empty `argv` is invalid, and so is a NUL
    /// within an argument, an environment entry or the working directory.
    pub fn new(argv: Vec<String>, env: Option<Vec<String>>, cwd: Option<String>) -> (r: Result<
        Self,
        SysError,
    >)
        ensures
            if argv@.len() == 0 {
                error::failed_with(r, EINVAL, "exec argv empty"@)
            } else if any_nul(argv@) {
                error::failed_with(r, EINVAL, "exec argv contains nul"@)
            } else if env is Some && any_nul(env->0@) {
                error::failed_with(r, EINVAL, "exec env contains nul"@)
            } else if cwd is Some && cwd->0@.contains('\0') {
                error::failed_with(r, EINVAL, "exec cwd contains nul"@)
            } else {
                &&& r is Ok
                &&& r->Ok_0@.argv == encoded(argv@)
                &&& r->Ok_0@.envp == (match env {
                    Some(v) => Some(encoded(v@)),
                    None => None,
                })
                &&& r->Ok_0@.cwd == (match cwd {
                    Some(c) => Some(encode_utf8(c@)),
                    None => None,
                })
            },
    {
        if argv.is_empty() {
            return Err(SysError::sys(EINVAL, "exec argv empty"));
        }
        let c_argv = match to_ctexts(&argv) {
            Some(v) => v,
            None => return Err(SysError::sys(EINVAL, "exec argv contains nul")),
        };
        let c_envp = match &env {
            Some(vars) => match to_ctexts(vars) {
                Some(v) => Some(v),
                None => return Err(SysError::sys(EINVAL, "exec env contains nul")),
            },
            None => None,
        };
        let c_cwd = match &cwd {
            Some(c) => match CText::new(c.as_str()) {
                Some(v) => Some(v),
                None => return Err(SysError::sys(EINVAL, "exec cwd contains nul")),
            },
            None => None,
        };
        assert(bytes_of(c_argv@).len() == encoded(argv@).len());
        Ok(ExecContext { argv: ExecArgv::Dynamic(c_argv), envp: c_envp, cwd: c_cwd })
    }

    /// The arguments.
    pub fn argv(&self) -> (r: &[CText])
        ensures
            bytes_of(r@) == self@.argv,
            r@.len() > 0,
    {
        proof {
            use_type_invariant(&*self);
        }
        match &self.argv {
            ExecArgv::Dynamic(v) => v.as_slice(),
        }
    }

    /// The path of the program: the first argument.
    pub fn exe(&self) -> (r: &CText)
        ensures
            self@.argv.len() > 0,
            r@ == self@.argv[0],
    {
        proof {
            use_type_invariant(&*self);
        }
        match &self.argv {
            ExecArgv::Dynamic(v) => &v[0],
        }
    }

    /// The environment, where it is not the caller's.
    pub fn envp(&self) -> (r: Option<&[CText]>)
        ensures
            self@.envp == (match r {
                Some(v) => Some(bytes_of(v@)),
                None => None,
            }),
    {
        match &self.envp {
            Some(v) => Some(v.as_slice()),
            None => None,
        }
    }

    /// The working directory, where it is not the caller's.
    pub fn cwd(&self) -> (r: Option<&CText>)
        ensures
            self@.cwd == (match r {
                Some(c) => Some(c@),
                None => None,
            }),
    {
        match &self.cwd {
            Some(c) => Some(c),
            None => None,
        }
    }
}

/// Strings are handed to a program one by one, in order, and each as it is.
pub proof fn law_strings_are_handed_over(strings: Seq<String>, i: int)
    requires
        0 <= i < strings.len(),
    ensures
        encoded(strings).len() == strings.len(),
        encoded(strings)[i] == encode_utf8(strings[i]@),
        decode_utf8(encoded(strings)[i]) == strings[i]@,
        strings[i]@.contains('\0') ==> any_nul(strings),
        !any_nul(strings) ==> !encoded(strings)[i].contains(0u8),
{
    encode_utf8_decode_utf8(strings[i]@);
    crate::sys::ctext::lemma_encoded_zero(strings[i]@);
}

/// Where some string is found to hold a NUL, one does.
pub proof fn law_found_nuls_are_there(strings: Seq<String>)
    requires
        any_nul(strings),
    ensures
        exists|i: int, j: int|
            0 <= i < strings.len() && 0 <= j < strings[i]@.len() && #[trigger] strings[i]@[j]
                == '\0',
{
    let i = choose|i: int| 0 <= i < strings.len() && (#[trigger] strings[i])@.contains('\0');
    let j = choose|j: int| 0 <= j < strings[i]@.len() && strings[i]@[j] == '\0';
    assert(strings[i]@[j] == '\0');
}

/// Texts for the kernel are listed one by one, in order, and each as it is.
pub proof fn law_texts_are_listed(texts: Seq<CText>, i: int)
    requires
        0 <= i < texts.len(),
    ensures
        bytes_of(texts).len() == texts.len(),
        bytes_of(texts)[i] == texts[i]@,
{
}

} // verus!
