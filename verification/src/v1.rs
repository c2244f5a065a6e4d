//! The catalog of application message schemas carried over the envelope,
//! with their payload codecs.

use vstd::prelude::*;
use vstd::string::StringExecFns;

use crate::codec::{
    dec_ok, dec_opt_u16, dec_str, dec_opt_u32, dec_opt_u8, dec_u16, dec_u32, dec_u64, dec_u8, enc_opt_u16,
    enc_opt_u32, enc_opt_u8, enc_str, enc_u16, enc_u32, enc_u64, enc_u8, lemma_rt_opt, lemma_rt_opt_u16,
    lemma_rt_opt_u32, lemma_rt_opt_u8, lemma_rt_str, lemma_rt_u16, lemma_rt_u32, lemma_rt_u64, lemma_rt_u8,
    spec_dec_opt, spec_dec_str, spec_dec_opt_u16, spec_dec_opt_u32, spec_dec_opt_u8, spec_dec_u16, spec_dec_u32,
    spec_dec_u64, spec_dec_u8, spec_enc_opt, spec_enc_opt_u16, spec_enc_opt_u32, spec_enc_opt_u8, spec_enc_str,
    spec_enc_u16, spec_enc_u32, spec_enc_u64, spec_enc_u8, CodecError,
};
use crate::text::{
    push_dec_u64, push_hex2, push_hex4, push_hex8, spec_dec_digits, spec_hex2, spec_hex4,
    spec_hex8,
};

verus! {

// ---------------------------------------------------------------------------
// CPU description.
// ---------------------------------------------------------------------------

/// CPU architecture of a reporting machine.
#[derive(Debug, Clone, Copy, PartialEq, Eq)]
pub enum CpuArchV0 {
    I386,
    I686,
    Ppc64Le,
    X86_64,
}

/// The short name `to_desc_str` returns for each architecture.
pub open spec fn spec_cpu_arch_desc(v: CpuArchV0) -> Seq<char> {
    match v {
        CpuArchV0::I386 => "i386"@,
        CpuArchV0::I686 => "i686"@,
        CpuArchV0::Ppc64Le => "ppc64le"@,
        CpuArchV0::X86_64 => "x86_64"@,
    }
}

impl CpuArchV0 {
    pub fn to_desc_str(&self) -> (r: &'static str)
        ensures
            r@ == spec_cpu_arch_desc(*self),
    {
        match *self {
            CpuArchV0::I386 => "i386",
            CpuArchV0::I686 => "i686",
            CpuArchV0::Ppc64Le => "ppc64le",
            CpuArchV0::X86_64 => "x86_64",
        }
    }
}

pub open spec fn spec_cpu_arch_tag(v: CpuArchV0) -> u32 {
    match v {
        CpuArchV0::I386 => 0,
        CpuArchV0::I686 => 1,
        CpuArchV0::Ppc64Le => 2,
        CpuArchV0::X86_64 => 3,
    }
}

pub open spec fn spec_enc_cpu_arch(v: CpuArchV0) -> Seq<u8> {
    spec_enc_u32(spec_cpu_arch_tag(v))
}

pub open spec fn spec_dec_cpu_arch(s: Seq<u8>) -> Option<(CpuArchV0, Seq<u8>)> {
    match spec_dec_u32(s) {
        Option::Some((t, r)) => if t == 0 {
            Option::Some((CpuArchV0::I386, r))
        } else if t == 1 {
            Option::Some((CpuArchV0::I686, r))
        } else if t == 2 {
            Option::Some((CpuArchV0::Ppc64Le, r))
        } else if t == 3 {
            Option::Some((CpuArchV0::X86_64, r))
        } else {
            Option::None
        },
        Option::None => Option::None,
    }
}

pub proof fn lemma_rt_cpu_arch(v: CpuArchV0, rest: Seq<u8>)
    ensures
        spec_dec_cpu_arch(spec_enc_cpu_arch(v) + rest) == Option::Some((v, rest)),
{
    lemma_rt_u32(spec_cpu_arch_tag(v), rest);
}

pub fn enc_cpu_arch(out: &mut Vec<u8>, v: &CpuArchV0)
    ensures
        final(out)@ == old(out)@ + spec_enc_cpu_arch(*v),
{
    let tag: u32 = match *v {
        CpuArchV0::I386 => 0,
        CpuArchV0::I686 => 1,
        CpuArchV0::Ppc64Le => 2,
        CpuArchV0::X86_64 => 3,
    };
    enc_u32(out, tag);
}

pub fn dec_cpu_arch(buf: &[u8], pos: usize) -> (r: Result<(CpuArchV0, usize), CodecError>)
    requires
        pos <= buf@.len(),
    ensures
        dec_ok(buf@, pos as int, r, spec_dec_cpu_arch(buf@.skip(pos as int))),
{
    match dec_u32(buf, pos) {
        Result::Ok((t, p)) => {
            if t == 0 {
                Result::Ok((CpuArchV0::I386, p))
            } else if t == 1 {
                Result::Ok((CpuArchV0::I686, p))
            } else if t == 2 {
                Result::Ok((CpuArchV0::Ppc64Le, p))
            } else if t == 3 {
                Result::Ok((CpuArchV0::X86_64, p))
            } else {
                Result::Err(CodecError)
            }
        },
        Result::Err(e) => Result::Err(e),
    }
}

/// CPU inventory of a machine.
#[derive(Debug, Clone, Copy, PartialEq, Eq)]
pub struct CpuInfoV0 {
    pub arch: CpuArchV0,
    pub num_cpus: u64,
}

pub open spec fn spec_enc_cpu_info(m: CpuInfoV0) -> Seq<u8> {
    spec_enc_cpu_arch(m.arch) + spec_enc_u64(m.num_cpus)
}

pub open spec fn spec_dec_cpu_info(s: Seq<u8>) -> Option<(CpuInfoV0, Seq<u8>)> {
    match spec_dec_cpu_arch(s) {
        Option::Some((arch, r1)) => match spec_dec_u64(r1) {
            Option::Some((num_cpus, r2)) => Option::Some((CpuInfoV0 { arch, num_cpus }, r2)),
            Option::None => Option::None,
        },
        Option::None => Option::None,
    }
}

pub proof fn lemma_rt_cpu_info(m: CpuInfoV0, rest: Seq<u8>)
    ensures
        spec_dec_cpu_info(spec_enc_cpu_info(m) + rest) == Option::Some((m, rest)),
{
    assert(spec_enc_cpu_info(m) + rest =~= spec_enc_cpu_arch(m.arch) + (spec_enc_u64(m.num_cpus)
        + rest));
    lemma_rt_cpu_arch(m.arch, spec_enc_u64(m.num_cpus) + rest);
    lemma_rt_u64(m.num_cpus, rest);
}

pub fn enc_cpu_info(out: &mut Vec<u8>, m: &CpuInfoV0)
    ensures
        final(out)@ == old(out)@ + spec_enc_cpu_info(*m),
{
    enc_cpu_arch(out, &m.arch);
    enc_u64(out, m.num_cpus);
    assert(out@ =~= old(out)@ + spec_enc_cpu_info(*m));
}

pub fn dec_cpu_info(buf: &[u8], pos: usize) -> (r: Result<(CpuInfoV0, usize), CodecError>)
    requires
        pos <= buf@.len(),
    ensures
        dec_ok(buf@, pos as int, r, spec_dec_cpu_info(buf@.skip(pos as int))),
{
    match dec_cpu_arch(buf, pos) {
        Result::Ok((arch, p1)) => match dec_u64(buf, p1) {
            Result::Ok((num_cpus, p2)) => Result::Ok((CpuInfoV0 { arch, num_cpus }, p2)),
            Result::Err(e) => Result::Err(e),
        },
        Result::Err(e) => Result::Err(e),
    }
}

// ---------------------------------------------------------------------------
// Distribution description.
// ---------------------------------------------------------------------------

/// Linux distribution family.
#[derive(Debug, Clone, Copy, PartialEq, Eq)]
pub enum DistroIdV0 {
    Alpine,
    Centos,
    Debian,
    Fedora,
    RedHat,
    Ubuntu,
}

/// The short name `to_desc_str` returns for each distribution.
pub open spec fn spec_distro_id_desc(v: DistroIdV0) -> Seq<char> {
    match v {
        DistroIdV0::Alpine => "alpine"@,
        DistroIdV0::Centos => "centos"@,
        DistroIdV0::Debian => "debian"@,
        DistroIdV0::Fedora => "fedora"@,
        DistroIdV0::RedHat => "redhat"@,
        DistroIdV0::Ubuntu => "ubuntu"@,
    }
}

impl DistroIdV0 {
    pub fn to_desc_str(&self) -> (r: &'static str)
        ensures
            r@ == spec_distro_id_desc(*self),
    {
        match *self {
            DistroIdV0::Alpine => "alpine",
            DistroIdV0::Centos => "centos",
            DistroIdV0::Debian => "debian",
            DistroIdV0::Fedora => "fedora",
            DistroIdV0::RedHat => "redhat",
            DistroIdV0::Ubuntu => "ubuntu",
        }
    }
}

pub open spec fn spec_distro_id_tag(v: DistroIdV0) -> u32 {
    match v {
        DistroIdV0::Alpine => 0,
        DistroIdV0::Centos => 1,
        DistroIdV0::Debian => 2,
        DistroIdV0::Fedora => 3,
        DistroIdV0::RedHat => 4,
        DistroIdV0::Ubuntu => 5,
    }
}

pub open spec fn spec_enc_distro_id(v: DistroIdV0) -> Seq<u8> {
    spec_enc_u32(spec_distro_id_tag(v))
}

pub open spec fn spec_dec_distro_id(s: Seq<u8>) -> Option<(DistroIdV0, Seq<u8>)> {
    match spec_dec_u32(s) {
        Option::Some((t, r)) => if t == 0 {
            Option::Some((DistroIdV0::Alpine, r))
        } else if t == 1 {
            Option::Some((DistroIdV0::Centos, r))
        } else if t == 2 {
            Option::Some((DistroIdV0::Debian, r))
        } else if t == 3 {
            Option::Some((DistroIdV0::Fedora, r))
        } else if t == 4 {
            Option::Some((DistroIdV0::RedHat, r))
        } else if t == 5 {
            Option::Some((DistroIdV0::Ubuntu, r))
        } else {
            Option::None
        },
        Option::None => Option::None,
    }
}

pub proof fn lemma_rt_distro_id(v: DistroIdV0, rest: Seq<u8>)
    ensures
        spec_dec_distro_id(spec_enc_distro_id(v) + rest) == Option::Some((v, rest)),
{
    lemma_rt_u32(spec_distro_id_tag(v), rest);
}

pub fn enc_distro_id(out: &mut Vec<u8>, v: &DistroIdV0)
    ensures
        final(out)@ == old(out)@ + spec_enc_distro_id(*v),
{
    let tag: u32 = match *v {
        DistroIdV0::Alpine => 0,
        DistroIdV0::Centos => 1,
        DistroIdV0::Debian => 2,
        DistroIdV0::Fedora => 3,
        DistroIdV0::RedHat => 4,
        DistroIdV0::Ubuntu => 5,
    };
    enc_u32(out, tag);
}

pub fn dec_distro_id(buf: &[u8], pos: usize) -> (r: Result<(DistroIdV0, usize), CodecError>)
    requires
        pos <= buf@.len(),
    ensures
        dec_ok(buf@, pos as int, r, spec_dec_distro_id(buf@.skip(pos as int))),
{
    match dec_u32(buf, pos) {
        Result::Ok((t, p)) => {
            if t == 0 {
                Result::Ok((DistroIdV0::Alpine, p))
            } else if t == 1 {
                Result::Ok((DistroIdV0::Centos, p))
            } else if t == 2 {
                Result::Ok((DistroIdV0::Debian, p))
            } else if t == 3 {
                Result::Ok((DistroIdV0::Fedora, p))
            } else if t == 4 {
                Result::Ok((DistroIdV0::RedHat, p))
            } else if t == 5 {
                Result::Ok((DistroIdV0::Ubuntu, p))
            } else {
                Result::Err(CodecError)
            }
        },
        Result::Err(e) => Result::Err(e),
    }
}

/// Released codename of a distribution.
#[derive(Debug, Clone, Copy, PartialEq, Eq)]
pub enum DistroCodenameV0 {
    Alpine3_8,
    Alpine3_9,
    Centos6,
    Centos7,
    DebianWheezy,
    DebianJessie,
    DebianStretch,
    DebianBuster,
    UbuntuTrusty,
    UbuntuXenial,
    UbuntuBionic,
}

/// The distribution family `to_id` returns for each codename.
pub open spec fn spec_codename_id(v: DistroCodenameV0) -> DistroIdV0 {
    match v {
        DistroCodenameV0::Alpine3_8 => DistroIdV0::Alpine,
        DistroCodenameV0::Alpine3_9 => DistroIdV0::Alpine,
        DistroCodenameV0::Centos6 => DistroIdV0::Centos,
        DistroCodenameV0::Centos7 => DistroIdV0::Centos,
        DistroCodenameV0::DebianWheezy => DistroIdV0::Debian,
        DistroCodenameV0::DebianJessie => DistroIdV0::Debian,
        DistroCodenameV0::DebianStretch => DistroIdV0::Debian,
        DistroCodenameV0::DebianBuster => DistroIdV0::Debian,
        DistroCodenameV0::UbuntuTrusty => DistroIdV0::Ubuntu,
        DistroCodenameV0::UbuntuXenial => DistroIdV0::Ubuntu,
        DistroCodenameV0::UbuntuBionic => DistroIdV0::Ubuntu,
    }
}

/// The short name `to_desc_str` returns for each codename.
pub open spec fn spec_codename_desc(v: DistroCodenameV0) -> Seq<char> {
    match v {
        DistroCodenameV0::Alpine3_8 => "alpine_3_8"@,
        DistroCodenameV0::Alpine3_9 => "alpine_3_9"@,
        DistroCodenameV0::Centos6 => "centos_6"@,
        DistroCodenameV0::Centos7 => "centos_7"@,
        DistroCodenameV0::DebianWheezy => "debian_wheezy"@,
        DistroCodenameV0::DebianJessie => "debian_jessie"@,
        DistroCodenameV0::DebianStretch => "debian_stretch"@,
        DistroCodenameV0::DebianBuster => "debian_buster"@,
        DistroCodenameV0::UbuntuTrusty => "ubuntu_trusty"@,
        DistroCodenameV0::UbuntuXenial => "ubuntu_xenial"@,
        DistroCodenameV0::UbuntuBionic => "ubuntu_bionic"@,
    }
}

impl DistroCodenameV0 {
    pub fn to_id(&self) -> (r: DistroIdV0)
        ensures
            r == spec_codename_id(*self),
    {
        match *self {
            DistroCodenameV0::Alpine3_8 | DistroCodenameV0::Alpine3_9 => DistroIdV0::Alpine,
            DistroCodenameV0::Centos6 | DistroCodenameV0::Centos7 => DistroIdV0::Centos,
            DistroCodenameV0::DebianWheezy | DistroCodenameV0::DebianJessie
                | DistroCodenameV0::DebianStretch | DistroCodenameV0::DebianBuster
                => DistroIdV0::Debian,
            DistroCodenameV0::UbuntuTrusty | DistroCodenameV0::UbuntuXenial
                | DistroCodenameV0::UbuntuBionic => DistroIdV0::Ubuntu,
        }
    }

    pub fn to_desc_str(&self) -> (r: &'static str)
        ensures
            r@ == spec_codename_desc(*self),
    {
        match *self {
            DistroCodenameV0::Alpine3_8 => "alpine_3_8",
            DistroCodenameV0::Alpine3_9 => "alpine_3_9",
            DistroCodenameV0::Centos6 => "centos_6",
            DistroCodenameV0::Centos7 => "centos_7",
            DistroCodenameV0::DebianWheezy => "debian_wheezy",
            DistroCodenameV0::DebianJessie => "debian_jessie",
            DistroCodenameV0::DebianStretch => "debian_stretch",
            DistroCodenameV0::DebianBuster => "debian_buster",
            DistroCodenameV0::UbuntuTrusty => "ubuntu_trusty",
            DistroCodenameV0::UbuntuXenial => "ubuntu_xenial",
            DistroCodenameV0::UbuntuBionic => "ubuntu_bionic",
        }
    }
}

pub open spec fn spec_codename_tag(v: DistroCodenameV0) -> u32 {
    match v {
        DistroCodenameV0::Alpine3_8 => 0,
        DistroCodenameV0::Alpine3_9 => 1,
        DistroCodenameV0::Centos6 => 2,
        DistroCodenameV0::Centos7 => 3,
        DistroCodenameV0::DebianWheezy => 4,
        DistroCodenameV0::DebianJessie => 5,
        DistroCodenameV0::DebianStretch => 6,
        DistroCodenameV0::DebianBuster => 7,
        DistroCodenameV0::UbuntuTrusty => 8,
        DistroCodenameV0::UbuntuXenial => 9,
        DistroCodenameV0::UbuntuBionic => 10,
    }
}

pub open spec fn spec_codename_of_tag(t: u32) -> Option<DistroCodenameV0> {
    if t == 0 {
        Option::Some(DistroCodenameV0::Alpine3_8)
    } else if t == 1 {
        Option::Some(DistroCodenameV0::Alpine3_9)
    } else if t == 2 {
        Option::Some(DistroCodenameV0::Centos6)
    } else if t == 3 {
        Option::Some(DistroCodenameV0::Centos7)
    } else if t == 4 {
        Option::Some(DistroCodenameV0::DebianWheezy)
    } else if t == 5 {
        Option::Some(DistroCodenameV0::DebianJessie)
    } else if t == 6 {
        Option::Some(DistroCodenameV0::DebianStretch)
    } else if t == 7 {
        Option::Some(DistroCodenameV0::DebianBuster)
    } else if t == 8 {
        Option::Some(DistroCodenameV0::UbuntuTrusty)
    } else if t == 9 {
        Option::Some(DistroCodenameV0::UbuntuXenial)
    } else if t == 10 {
        Option::Some(DistroCodenameV0::UbuntuBionic)
    } else {
        Option::None
    }
}

pub open spec fn spec_enc_codename(v: DistroCodenameV0) -> Seq<u8> {
    spec_enc_u32(spec_codename_tag(v))
}

pub open spec fn spec_dec_codename(s: Seq<u8>) -> Option<(DistroCodenameV0, Seq<u8>)> {
    match spec_dec_u32(s) {
        Option::Some((t, r)) => match spec_codename_of_tag(t) {
            Option::Some(v) => Option::Some((v, r)),
            Option::None => Option::None,
        },
        Option::None => Option::None,
    }
}

pub proof fn lemma_rt_codename(v: DistroCodenameV0, rest: Seq<u8>)
    ensures
        spec_dec_codename(spec_enc_codename(v) + rest) == Option::Some((v, rest)),
{
    lemma_rt_u32(spec_codename_tag(v), rest);
}

pub fn enc_codename(out: &mut Vec<u8>, v: &DistroCodenameV0)
    ensures
        final(out)@ == old(out)@ + spec_enc_codename(*v),
{
    let tag: u32 = match *v {
        DistroCodenameV0::Alpine3_8 => 0,
        DistroCodenameV0::Alpine3_9 => 1,
        DistroCodenameV0::Centos6 => 2,
        DistroCodenameV0::Centos7 => 3,
        DistroCodenameV0::DebianWheezy => 4,
        DistroCodenameV0::DebianJessie => 5,
        DistroCodenameV0::DebianStretch => 6,
        DistroCodenameV0::DebianBuster => 7,
        DistroCodenameV0::UbuntuTrusty => 8,
        DistroCodenameV0::UbuntuXenial => 9,
        DistroCodenameV0::UbuntuBionic => 10,
    };
    enc_u32(out, tag);
}

pub fn dec_codename(buf: &[u8], pos: usize) -> (r: Result<(DistroCodenameV0, usize), CodecError>)
    requires
        pos <= buf@.len(),
    ensures
        dec_ok(buf@, pos as int, r, spec_dec_codename(buf@.skip(pos as int))),
{
    match dec_u32(buf, pos) {
        Result::Ok((t, p)) => {
            if t == 0 {
                Result::Ok((DistroCodenameV0::Alpine3_8, p))
            } else if t == 1 {
                Result::Ok((DistroCodenameV0::Alpine3_9, p))
            } else if t == 2 {
                Result::Ok((DistroCodenameV0::Centos6, p))
            } else if t == 3 {
                Result::Ok((DistroCodenameV0::Centos7, p))
            } else if t == 4 {
                Result::Ok((DistroCodenameV0::DebianWheezy, p))
            } else if t == 5 {
                Result::Ok((DistroCodenameV0::DebianJessie, p))
            } else if t == 6 {
                Result::Ok((DistroCodenameV0::DebianStretch, p))
            } else if t == 7 {
                Result::Ok((DistroCodenameV0::DebianBuster, p))
            } else if t == 8 {
                Result::Ok((DistroCodenameV0::UbuntuTrusty, p))
            } else if t == 9 {
                Result::Ok((DistroCodenameV0::UbuntuXenial, p))
            } else if t == 10 {
                Result::Ok((DistroCodenameV0::UbuntuBionic, p))
            } else {
                Result::Err(CodecError)
            }
        },
        Result::Err(e) => Result::Err(e),
    }
}

pub open spec fn spec_enc_opt_codename(o: Option<DistroCodenameV0>) -> Seq<u8> {
    spec_enc_opt(o, |x: DistroCodenameV0| spec_enc_codename(x))
}

pub open spec fn spec_dec_opt_codename(s: Seq<u8>) -> Option<(Option<DistroCodenameV0>, Seq<u8>)> {
    spec_dec_opt(s, |t: Seq<u8>| spec_dec_codename(t))
}

pub proof fn lemma_rt_opt_codename(o: Option<DistroCodenameV0>, rest: Seq<u8>)
    ensures
        spec_dec_opt_codename(spec_enc_opt_codename(o) + rest) == Option::Some((o, rest)),
{
    let f = (|x: DistroCodenameV0| spec_enc_codename(x));
    let fd = (|t: Seq<u8>| spec_dec_codename(t));
    assert forall|v: DistroCodenameV0, r: Seq<u8>| #[trigger] fd(f(v) + r) == Option::Some((v, r))
        by {
        lemma_rt_codename(v, r);
    }
    lemma_rt_opt(o, f, fd, rest);
}

pub fn enc_opt_codename(out: &mut Vec<u8>, o: &Option<DistroCodenameV0>)
    ensures
        final(out)@ == old(out)@ + spec_enc_opt_codename(*o),
{
    match o {
        Option::None => {
            enc_u8(out, 0);
            assert(out@ =~= old(out)@ + spec_enc_opt_codename(*o));
        },
        Option::Some(x) => {
            enc_u8(out, 1);
            enc_codename(out, x);
            assert(out@ =~= old(out)@ + spec_enc_opt_codename(*o));
        },
    }
}

pub fn dec_opt_codename(buf: &[u8], pos: usize) -> (r: Result<
    (Option<DistroCodenameV0>, usize),
    CodecError,
>)
    requires
        pos <= buf@.len(),
    ensures
        dec_ok(buf@, pos as int, r, spec_dec_opt_codename(buf@.skip(pos as int))),
{
    match dec_u8(buf, pos) {
        Result::Ok((tag, p)) => {
            if tag == 0 {
                Result::Ok((Option::None, p))
            } else if tag == 1 {
                proof {
                    assert(buf@.skip(pos as int).skip(1) =~= buf@.skip(p as int));
                }
                match dec_codename(buf, p) {
                    Result::Ok((x, p2)) => Result::Ok((Option::Some(x), p2)),
                    Result::Err(e) => Result::Err(e),
                }
            } else {
                Result::Err(CodecError)
            }
        },
        Result::Err(e) => Result::Err(e),
    }
}

/// Distribution inventory of a machine.
#[derive(Debug, Clone, Copy, PartialEq, Eq)]
pub struct DistroInfoV0 {
    pub id: DistroIdV0,
    pub codename: Option<DistroCodenameV0>,
}

pub open spec fn spec_enc_distro_info(m: DistroInfoV0) -> Seq<u8> {
    spec_enc_distro_id(m.id) + spec_enc_opt_codename(m.codename)
}

pub open spec fn spec_dec_distro_info(s: Seq<u8>) -> Option<(DistroInfoV0, Seq<u8>)> {
    match spec_dec_distro_id(s) {
        Option::Some((id, r1)) => match spec_dec_opt_codename(r1) {
            Option::Some((codename, r2)) => Option::Some((DistroInfoV0 { id, codename }, r2)),
            Option::None => Option::None,
        },
        Option::None => Option::None,
    }
}

pub proof fn lemma_rt_distro_info(m: DistroInfoV0, rest: Seq<u8>)
    ensures
        spec_dec_distro_info(spec_enc_distro_info(m) + rest) == Option::Some((m, rest)),
{
    assert(spec_enc_distro_info(m) + rest =~= spec_enc_distro_id(m.id) + (spec_enc_opt_codename(
        m.codename,
    ) + rest));
    lemma_rt_distro_id(m.id, spec_enc_opt_codename(m.codename) + rest);
    lemma_rt_opt_codename(m.codename, rest);
}

pub fn enc_distro_info(out: &mut Vec<u8>, m: &DistroInfoV0)
    ensures
        final(out)@ == old(out)@ + spec_enc_distro_info(*m),
{
    enc_distro_id(out, &m.id);
    enc_opt_codename(out, &m.codename);
    assert(out@ =~= old(out)@ + spec_enc_distro_info(*m));
}

pub fn dec_distro_info(buf: &[u8], pos: usize) -> (r: Result<(DistroInfoV0, usize), CodecError>)
    requires
        pos <= buf@.len(),
    ensures
        dec_ok(buf@, pos as int, r, spec_dec_distro_info(buf@.skip(pos as int))),
{
    match dec_distro_id(buf, pos) {
        Result::Ok((id, p1)) => match dec_opt_codename(buf, p1) {
            Result::Ok((codename, p2)) => Result::Ok((DistroInfoV0 { id, codename }, p2)),
            Result::Err(e) => Result::Err(e),
        },
        Result::Err(e) => Result::Err(e),
    }
}

// ---------------------------------------------------------------------------
// GPU description.
// ---------------------------------------------------------------------------

/// Version of the installed display driver.
#[derive(Debug, Clone, Copy, PartialEq, Eq)]
pub struct DriverVersionV0 {
    pub major: u32,
    pub minor: u32,
}

pub open spec fn spec_enc_driver_version(m: DriverVersionV0) -> Seq<u8> {
    spec_enc_u32(m.major) + spec_enc_u32(m.minor)
}

pub open spec fn spec_dec_driver_version(s: Seq<u8>) -> Option<(DriverVersionV0, Seq<u8>)> {
    match spec_dec_u32(s) {
        Option::Some((major, r1)) => match spec_dec_u32(r1) {
            Option::Some((minor, r2)) => Option::Some((DriverVersionV0 { major, minor }, r2)),
            Option::None => Option::None,
        },
        Option::None => Option::None,
    }
}

pub proof fn lemma_rt_driver_version(m: DriverVersionV0, rest: Seq<u8>)
    ensures
        spec_dec_driver_version(spec_enc_driver_version(m) + rest) == Option::Some((m, rest)),
{
    assert(spec_enc_driver_version(m) + rest =~= spec_enc_u32(m.major) + (spec_enc_u32(m.minor)
        + rest));
    lemma_rt_u32(m.major, spec_enc_u32(m.minor) + rest);
    lemma_rt_u32(m.minor, rest);
}

pub fn enc_driver_version(out: &mut Vec<u8>, m: &DriverVersionV0)
    ensures
        final(out)@ == old(out)@ + spec_enc_driver_version(*m),
{
    enc_u32(out, m.major);
    enc_u32(out, m.minor);
    assert(out@ =~= old(out)@ + spec_enc_driver_version(*m));
}

pub fn dec_driver_version(buf: &[u8], pos: usize) -> (r: Result<
    (DriverVersionV0, usize),
    CodecError,
>)
    requires
        pos <= buf@.len(),
    ensures
        dec_ok(buf@, pos as int, r, spec_dec_driver_version(buf@.skip(pos as int))),
{
    match dec_u32(buf, pos) {
        Result::Ok((major, p1)) => match dec_u32(buf, p1) {
            Result::Ok((minor, p2)) => Result::Ok((DriverVersionV0 { major, minor }, p2)),
            Result::Err(e) => Result::Err(e),
        },
        Result::Err(e) => Result::Err(e),
    }
}

pub open spec fn spec_enc_opt_driver_version(o: Option<DriverVersionV0>) -> Seq<u8> {
    spec_enc_opt(o, |x: DriverVersionV0| spec_enc_driver_version(x))
}

pub open spec fn spec_dec_opt_driver_version(s: Seq<u8>) -> Option<
    (Option<DriverVersionV0>, Seq<u8>),
> {
    spec_dec_opt(s, |t: Seq<u8>| spec_dec_driver_version(t))
}

pub proof fn lemma_rt_opt_driver_version(o: Option<DriverVersionV0>, rest: Seq<u8>)
    ensures
        spec_dec_opt_driver_version(spec_enc_opt_driver_version(o) + rest) == Option::Some(
            (o, rest),
        ),
{
    let f = (|x: DriverVersionV0| spec_enc_driver_version(x));
    let fd = (|t: Seq<u8>| spec_dec_driver_version(t));
    assert forall|v: DriverVersionV0, r: Seq<u8>| #[trigger] fd(f(v) + r) == Option::Some((v, r))
        by {
        lemma_rt_driver_version(v, r);
    }
    lemma_rt_opt(o, f, fd, rest);
}

pub fn enc_opt_driver_version(out: &mut Vec<u8>, o: &Option<DriverVersionV0>)
    ensures
        final(out)@ == old(out)@ + spec_enc_opt_driver_version(*o),
{
    match o {
        Option::None => {
            enc_u8(out, 0);
            assert(out@ =~= old(out)@ + spec_enc_opt_driver_version(*o));
        },
        Option::Some(x) => {
            enc_u8(out, 1);
            enc_driver_version(out, x);
            assert(out@ =~= old(out)@ + spec_enc_opt_driver_version(*o));
        },
    }
}

pub fn dec_opt_driver_version(buf: &[u8], pos: usize) -> (r: Result<
    (Option<DriverVersionV0>, usize),
    CodecError,
>)
    requires
        pos <= buf@.len(),
    ensures
        dec_ok(buf@, pos as int, r, spec_dec_opt_driver_version(buf@.skip(pos as int))),
{
    match dec_u8(buf, pos) {
        Result::Ok((tag, p)) => {
            if tag == 0 {
                Result::Ok((Option::None, p))
            } else if tag == 1 {
                proof {
                    assert(buf@.skip(pos as int).skip(1) =~= buf@.skip(p as int));
                }
                match dec_driver_version(buf, p) {
                    Result::Ok((x, p2)) => Result::Ok((Option::Some(x), p2)),
                    Result::Err(e) => Result::Err(e),
                }
            } else {
                Result::Err(CodecError)
            }
        },
        Result::Err(e) => Result::Err(e),
    }
}

/// Version of a CUDA driver or toolkit.
#[derive(Debug, Clone, Copy, PartialEq, Eq)]
pub struct CudaVersionV0 {
    pub major: u32,
    pub minor: u32,
}

pub open spec fn spec_enc_cuda_version(m: CudaVersionV0) -> Seq<u8> {
    spec_enc_u32(m.major) + spec_enc_u32(m.minor)
}

pub open spec fn spec_dec_cuda_version(s: Seq<u8>) -> Option<(CudaVersionV0, Seq<u8>)> {
    match spec_dec_u32(s) {
        Option::Some((major, r1)) => match spec_dec_u32(r1) {
            Option::Some((minor, r2)) => Option::Some((CudaVersionV0 { major, minor }, r2)),
            Option::None => Option::None,
        },
        Option::None => Option::None,
    }
}

pub proof fn lemma_rt_cuda_version(m: CudaVersionV0, rest: Seq<u8>)
    ensures
        spec_dec_cuda_version(spec_enc_cuda_version(m) + rest) == Option::Some((m, rest)),
{
    assert(spec_enc_cuda_version(m) + rest =~= spec_enc_u32(m.major) + (spec_enc_u32(m.minor)
        + rest));
    lemma_rt_u32(m.major, spec_enc_u32(m.minor) + rest);
    lemma_rt_u32(m.minor, rest);
}

pub fn enc_cuda_version(out: &mut Vec<u8>, m: &CudaVersionV0)
    ensures
        final(out)@ == old(out)@ + spec_enc_cuda_version(*m),
{
    enc_u32(out, m.major);
    enc_u32(out, m.minor);
    assert(out@ =~= old(out)@ + spec_enc_cuda_version(*m));
}

pub fn dec_cuda_version(buf: &[u8], pos: usize) -> (r: Result<(CudaVersionV0, usize), CodecError>)
    requires
        pos <= buf@.len(),
    ensures
        dec_ok(buf@, pos as int, r, spec_dec_cuda_version(buf@.skip(pos as int))),
{
    match dec_u32(buf, pos) {
        Result::Ok((major, p1)) => match dec_u32(buf, p1) {
            Result::Ok((minor, p2)) => Result::Ok((CudaVersionV0 { major, minor }, p2)),
            Result::Err(e) => Result::Err(e),
        },
        Result::Err(e) => Result::Err(e),
    }
}

pub open spec fn spec_enc_opt_cuda_version(o: Option<CudaVersionV0>) -> Seq<u8> {
    spec_enc_opt(o, |x: CudaVersionV0| spec_enc_cuda_version(x))
}

pub open spec fn spec_dec_opt_cuda_version(s: Seq<u8>) -> Option<
    (Option<CudaVersionV0>, Seq<u8>),
> {
    spec_dec_opt(s, |t: Seq<u8>| spec_dec_cuda_version(t))
}

pub proof fn lemma_rt_opt_cuda_version(o: Option<CudaVersionV0>, rest: Seq<u8>)
    ensures
        spec_dec_opt_cuda_version(spec_enc_opt_cuda_version(o) + rest) == Option::Some((o, rest)),
{
    let f = (|x: CudaVersionV0| spec_enc_cuda_version(x));
    let fd = (|t: Seq<u8>| spec_dec_cuda_version(t));
    assert forall|v: CudaVersionV0, r: Seq<u8>| #[trigger] fd(f(v) + r) == Option::Some((v, r))
        by {
        lemma_rt_cuda_version(v, r);
    }
    lemma_rt_opt(o, f, fd, rest);
}

pub fn enc_opt_cuda_version(out: &mut Vec<u8>, o: &Option<CudaVersionV0>)
    ensures
        final(out)@ == old(out)@ + spec_enc_opt_cuda_version(*o),
{
    match o {
        Option::None => {
            enc_u8(out, 0);
            assert(out@ =~= old(out)@ + spec_enc_opt_cuda_version(*o));
        },
        Option::Some(x) => {
            enc_u8(out, 1);
            enc_cuda_version(out, x);
            assert(out@ =~= old(out)@ + spec_enc_opt_cuda_version(*o));
        },
    }
}

pub fn dec_opt_cuda_version(buf: &[u8], pos: usize) -> (r: Result<
    (Option<CudaVersionV0>, usize),
    CodecError,
>)
    requires
        pos <= buf@.len(),
    ensures
        dec_ok(buf@, pos as int, r, spec_dec_opt_cuda_version(buf@.skip(pos as int))),
{
    match dec_u8(buf, pos) {
        Result::Ok((tag, p)) => {
            if tag == 0 {
                Result::Ok((Option::None, p))
            } else if tag == 1 {
                proof {
                    assert(buf@.skip(pos as int).skip(1) =~= buf@.skip(p as int));
                }
                match dec_cuda_version(buf, p) {
                    Result::Ok((x, p2)) => Result::Ok((Option::Some(x), p2)),
                    Result::Err(e) => Result::Err(e),
                }
            } else {
                Result::Err(CodecError)
            }
        },
        Result::Err(e) => Result::Err(e),
    }
}

/// GPU driver and toolkit inventory of a machine.
#[derive(Debug, Clone, Copy)]
pub struct GpuInfoV0 {
    pub driver_version: Option<DriverVersionV0>,
    pub driver_cuda_version: Option<CudaVersionV0>,
    pub toolkit_cuda_version: Option<CudaVersionV0>,
}

pub open spec fn spec_enc_gpu_info(m: GpuInfoV0) -> Seq<u8> {
    spec_enc_opt_driver_version(m.driver_version) + spec_enc_opt_cuda_version(m.driver_cuda_version)
        + spec_enc_opt_cuda_version(m.toolkit_cuda_version)
}

pub open spec fn spec_dec_gpu_info(s: Seq<u8>) -> Option<(GpuInfoV0, Seq<u8>)> {
    match spec_dec_opt_driver_version(s) {
        Option::Some((driver_version, r1)) => match spec_dec_opt_cuda_version(r1) {
            Option::Some((driver_cuda_version, r2)) => match spec_dec_opt_cuda_version(r2) {
                Option::Some((toolkit_cuda_version, r3)) => Option::Some(
                    (GpuInfoV0 { driver_version, driver_cuda_version, toolkit_cuda_version }, r3),
                ),
                Option::None => Option::None,
            },
            Option::None => Option::None,
        },
        Option::None => Option::None,
    }
}

pub proof fn lemma_rt_gpu_info(m: GpuInfoV0, rest: Seq<u8>)
    ensures
        spec_dec_gpu_info(spec_enc_gpu_info(m) + rest) == Option::Some((m, rest)),
{
    let e2 = spec_enc_opt_cuda_version(m.driver_cuda_version);
    let e3 = spec_enc_opt_cuda_version(m.toolkit_cuda_version);
    assert(spec_enc_gpu_info(m) + rest =~= spec_enc_opt_driver_version(m.driver_version) + (e2 + (
    e3 + rest)));
    lemma_rt_opt_driver_version(m.driver_version, e2 + (e3 + rest));
    lemma_rt_opt_cuda_version(m.driver_cuda_version, e3 + rest);
    lemma_rt_opt_cuda_version(m.toolkit_cuda_version, rest);
}

pub fn enc_gpu_info(out: &mut Vec<u8>, m: &GpuInfoV0)
    ensures
        final(out)@ == old(out)@ + spec_enc_gpu_info(*m),
{
    enc_opt_driver_version(out, &m.driver_version);
    enc_opt_cuda_version(out, &m.driver_cuda_version);
    enc_opt_cuda_version(out, &m.toolkit_cuda_version);
    assert(out@ =~= old(out)@ + spec_enc_gpu_info(*m));
}

pub fn dec_gpu_info(buf: &[u8], pos: usize) -> (r: Result<(GpuInfoV0, usize), CodecError>)
    requires
        pos <= buf@.len(),
    ensures
        dec_ok(buf@, pos as int, r, spec_dec_gpu_info(buf@.skip(pos as int))),
{
    match dec_opt_driver_version(buf, pos) {
        Result::Ok((driver_version, p1)) => match dec_opt_cuda_version(buf, p1) {
            Result::Ok((driver_cuda_version, p2)) => match dec_opt_cuda_version(buf, p2) {
                Result::Ok((toolkit_cuda_version, p3)) => Result::Ok(
                    (GpuInfoV0 { driver_version, driver_cuda_version, toolkit_cuda_version }, p3),
                ),
                Result::Err(e) => Result::Err(e),
            },
            Result::Err(e) => Result::Err(e),
        },
        Result::Err(e) => Result::Err(e),
    }
}

// ---------------------------------------------------------------------------
// PCI description.
// ---------------------------------------------------------------------------

/// Position of a device on the PCI bus.
#[derive(Debug, Clone, Copy, Default)]
pub struct PciSlotV0 {
    pub domain: Option<u32>,
    pub bus: u8,
    pub device: u8,
    pub function: u8,
}

pub open spec fn spec_enc_pci_slot(m: PciSlotV0) -> Seq<u8> {
    spec_enc_opt_u32(m.domain) + spec_enc_u8(m.bus) + spec_enc_u8(m.device) + spec_enc_u8(
        m.function,
    )
}

pub open spec fn spec_dec_pci_slot(s: Seq<u8>) -> Option<(PciSlotV0, Seq<u8>)> {
    match spec_dec_opt_u32(s) {
        Option::Some((domain, r1)) => match spec_dec_u8(r1) {
            Option::Some((bus, r2)) => match spec_dec_u8(r2) {
                Option::Some((device, r3)) => match spec_dec_u8(r3) {
                    Option::Some((function, r4)) => Option::Some(
                        (PciSlotV0 { domain, bus, device, function }, r4),
                    ),
                    Option::None => Option::None,
                },
                Option::None => Option::None,
            },
            Option::None => Option::None,
        },
        Option::None => Option::None,
    }
}

pub proof fn lemma_rt_pci_slot(m: PciSlotV0, rest: Seq<u8>)
    ensures
        spec_dec_pci_slot(spec_enc_pci_slot(m) + rest) == Option::Some((m, rest)),
{
    let e2 = spec_enc_u8(m.bus);
    let e3 = spec_enc_u8(m.device);
    let e4 = spec_enc_u8(m.function);
    assert(spec_enc_pci_slot(m) + rest =~= spec_enc_opt_u32(m.domain) + (e2 + (e3 + (e4 + rest))));
    lemma_rt_opt_u32(m.domain, e2 + (e3 + (e4 + rest)));
    lemma_rt_u8(m.bus, e3 + (e4 + rest));
    lemma_rt_u8(m.device, e4 + rest);
    lemma_rt_u8(m.function, rest);
}

pub fn enc_pci_slot(out: &mut Vec<u8>, m: &PciSlotV0)
    ensures
        final(out)@ == old(out)@ + spec_enc_pci_slot(*m),
{
    enc_opt_u32(out, &m.domain);
    enc_u8(out, m.bus);
    enc_u8(out, m.device);
    enc_u8(out, m.function);
    assert(out@ =~= old(out)@ + spec_enc_pci_slot(*m));
}

pub fn dec_pci_slot(buf: &[u8], pos: usize) -> (r: Result<(PciSlotV0, usize), CodecError>)
    requires
        pos <= buf@.len(),
    ensures
        dec_ok(buf@, pos as int, r, spec_dec_pci_slot(buf@.skip(pos as int))),
{
    match dec_opt_u32(buf, pos) {
        Result::Ok((domain, p1)) => match dec_u8(buf, p1) {
            Result::Ok((bus, p2)) => match dec_u8(buf, p2) {
                Result::Ok((device, p3)) => match dec_u8(buf, p3) {
                    Result::Ok((function, p4)) => Result::Ok(
                        (PciSlotV0 { domain, bus, device, function }, p4),
                    ),
                    Result::Err(e) => Result::Err(e),
                },
                Result::Err(e) => Result::Err(e),
            },
            Result::Err(e) => Result::Err(e),
        },
        Result::Err(e) => Result::Err(e),
    }
}

/// One record from the PCI device listing.
#[derive(Debug, Clone, Copy, Default)]
pub struct PciRecordV0 {
    pub slot: PciSlotV0,
    pub class: u16,
    pub vendor: u16,
    pub device: u16,
    pub svendor: Option<u16>,
    pub sdevice: Option<u16>,
    pub rev: Option<u8>,
}

/// The record describes a VGA display controller.
pub open spec fn spec_is_vga(m: PciRecordV0) -> bool {
    m.class == 0x0300
}

/// The record describes a non-VGA 3D controller.
pub open spec fn spec_is_3d(m: PciRecordV0) -> bool {
    m.class == 0x0302
}

/// The record's vendor is NVIDIA.
pub open spec fn spec_is_nvidia(m: PciRecordV0) -> bool {
    m.vendor == 0x10de
}

/// The record describes an NVIDIA display or 3D controller.
pub open spec fn spec_is_gpu(m: PciRecordV0) -> bool {
    (spec_is_vga(m) || spec_is_3d(m)) && spec_is_nvidia(m)
}

impl PciRecordV0 {
    pub fn is_vga(&self) -> (r: bool)
        ensures
            r == spec_is_vga(*self),
    {
        self.class == 0x0300
    }

    pub fn is_3d(&self) -> (r: bool)
        ensures
            r == spec_is_3d(*self),
    {
        self.class == 0x0302
    }

    pub fn is_nvidia(&self) -> (r: bool)
        ensures
            r == spec_is_nvidia(*self),
    {
        self.vendor == 0x10de
    }

    pub fn is_gpu(&self) -> (r: bool)
        ensures
            r == spec_is_gpu(*self),
    {
        (self.is_vga() || self.is_3d()) && self.is_nvidia()
    }
}

pub open spec fn spec_enc_pci_record(m: PciRecordV0) -> Seq<u8> {
    spec_enc_pci_slot(m.slot) + spec_enc_u16(m.class) + spec_enc_u16(m.vendor) + spec_enc_u16(
        m.device,
    ) + spec_enc_opt_u16(m.svendor) + spec_enc_opt_u16(m.sdevice) + spec_enc_opt_u8(m.rev)
}

pub open spec fn spec_dec_pci_record(s: Seq<u8>) -> Option<(PciRecordV0, Seq<u8>)> {
    match spec_dec_pci_slot(s) {
        Option::Some((slot, r1)) => match spec_dec_u16(r1) {
            Option::Some((class, r2)) => match spec_dec_u16(r2) {
                Option::Some((vendor, r3)) => match spec_dec_u16(r3) {
                    Option::Some((device, r4)) => match spec_dec_opt_u16(r4) {
                        Option::Some((svendor, r5)) => match spec_dec_opt_u16(r5) {
                            Option::Some((sdevice, r6)) => match spec_dec_opt_u8(r6) {
                                Option::Some((rev, r7)) => Option::Some(
                                    (
                                        PciRecordV0 {
                                            slot,
                                            class,
                                            vendor,
                                            device,
                                            svendor,
                                            sdevice,
                                            rev,
                                        },
                                        r7,
                                    ),
                                ),
                                Option::None => Option::None,
                            },
                            Option::None => Option::None,
                        },
                        Option::None => Option::None,
                    },
                    Option::None => Option::None,
                },
                Option::None => Option::None,
            },
            Option::None => Option::None,
        },
        Option::None => Option::None,
    }
}

#[verifier::spinoff_prover]
#[verifier::rlimit(50)]
pub proof fn lemma_rt_pci_record(m: PciRecordV0, rest: Seq<u8>)
    ensures
        spec_dec_pci_record(spec_enc_pci_record(m) + rest) == Option::Some((m, rest)),
{
    let e2 = spec_enc_u16(m.class);
    let e3 = spec_enc_u16(m.vendor);
    let e4 = spec_enc_u16(m.device);
    let e5 = spec_enc_opt_u16(m.svendor);
    let e6 = spec_enc_opt_u16(m.sdevice);
    let e7 = spec_enc_opt_u8(m.rev);
    assert(spec_enc_pci_record(m) + rest =~= spec_enc_pci_slot(m.slot) + (e2 + (e3 + (e4 + (e5 + (
    e6 + (e7 + rest)))))));
    lemma_rt_pci_slot(m.slot, e2 + (e3 + (e4 + (e5 + (e6 + (e7 + rest))))));
    lemma_rt_u16(m.class, e3 + (e4 + (e5 + (e6 + (e7 + rest)))));
    lemma_rt_u16(m.vendor, e4 + (e5 + (e6 + (e7 + rest))));
    lemma_rt_u16(m.device, e5 + (e6 + (e7 + rest)));
    lemma_rt_opt_u16(m.svendor, e6 + (e7 + rest));
    lemma_rt_opt_u16(m.sdevice, e7 + rest);
    lemma_rt_opt_u8(m.rev, rest);
}

pub fn enc_pci_record(out: &mut Vec<u8>, m: &PciRecordV0)
    ensures
        final(out)@ == old(out)@ + spec_enc_pci_record(*m),
{
    enc_pci_slot(out, &m.slot);
    enc_u16(out, m.class);
    enc_u16(out, m.vendor);
    enc_u16(out, m.device);
    enc_opt_u16(out, &m.svendor);
    enc_opt_u16(out, &m.sdevice);
    enc_opt_u8(out, &m.rev);
    assert(out@ =~= old(out)@ + spec_enc_pci_record(*m));
}

pub fn dec_pci_record(buf: &[u8], pos: usize) -> (r: Result<(PciRecordV0, usize), CodecError>)
    requires
        pos <= buf@.len(),
    ensures
        dec_ok(buf@, pos as int, r, spec_dec_pci_record(buf@.skip(pos as int))),
{
    match dec_pci_slot(buf, pos) {
        Result::Ok((slot, p1)) => match dec_u16(buf, p1) {
            Result::Ok((class, p2)) => match dec_u16(buf, p2) {
                Result::Ok((vendor, p3)) => match dec_u16(buf, p3) {
                    Result::Ok((device, p4)) => match dec_opt_u16(buf, p4) {
                        Result::Ok((svendor, p5)) => match dec_opt_u16(buf, p5) {
                            Result::Ok((sdevice, p6)) => match dec_opt_u8(buf, p6) {
                                Result::Ok((rev, p7)) => Result::Ok(
                                    (
                                        PciRecordV0 {
                                            slot,
                                            class,
                                            vendor,
                                            device,
                                            svendor,
                                            sdevice,
                                            rev,
                                        },
                                        p7,
                                    ),
                                ),
                                Result::Err(e) => Result::Err(e),
                            },
                            Result::Err(e) => Result::Err(e),
                        },
                        Result::Err(e) => Result::Err(e),
                    },
                    Result::Err(e) => Result::Err(e),
                },
                Result::Err(e) => Result::Err(e),
            },
            Result::Err(e) => Result::Err(e),
        },
        Result::Err(e) => Result::Err(e),
    }
}

// ---------------------------------------------------------------------------
// Sequences of PCI records.
// ---------------------------------------------------------------------------

pub open spec fn spec_enc_record_elems(ms: Seq<PciRecordV0>) -> Seq<u8>
    decreases ms.len(),
{
    if ms.len() == 0 {
        Seq::empty()
    } else {
        spec_enc_pci_record(ms[0]) + spec_enc_record_elems(ms.drop_first())
    }
}

pub open spec fn spec_dec_record_elems(s: Seq<u8>, n: nat) -> Option<(Seq<PciRecordV0>, Seq<u8>)>
    decreases n,
{
    if n == 0 {
        Option::Some((Seq::empty(), s))
    } else {
        match spec_dec_pci_record(s) {
            Option::Some((v, r)) => match spec_dec_record_elems(r, (n - 1) as nat) {
                Option::Some((vs, r2)) => Option::Some((seq![v] + vs, r2)),
                Option::None => Option::None,
            },
            Option::None => Option::None,
        }
    }
}

pub proof fn lemma_enc_record_elems_snoc(ms: Seq<PciRecordV0>, x: PciRecordV0)
    ensures
        spec_enc_record_elems(ms.push(x)) == spec_enc_record_elems(ms) + spec_enc_pci_record(x),
    decreases ms.len(),
{
    if ms.len() == 0 {
        assert(ms.push(x)[0] == x);
        assert(ms.push(x).drop_first() =~= Seq::<PciRecordV0>::empty());
        assert(spec_enc_record_elems(Seq::<PciRecordV0>::empty()) == Seq::<u8>::empty());
        assert(ms =~= Seq::<PciRecordV0>::empty());
        assert(spec_enc_record_elems(ms.push(x)) =~= spec_enc_record_elems(ms)
            + spec_enc_pci_record(x));
    } else {
        assert(ms.push(x)[0] == ms[0]);
        assert(ms.push(x).drop_first() =~= ms.drop_first().push(x));
        lemma_enc_record_elems_snoc(ms.drop_first(), x);
        assert(spec_enc_record_elems(ms.push(x)) =~= spec_enc_record_elems(ms)
            + spec_enc_pci_record(x));
    }
}

#[verifier::spinoff_prover]
#[verifier::rlimit(100)]
pub proof fn lemma_rt_record_elems(ms: Seq<PciRecordV0>, rest: Seq<u8>)
    ensures
        spec_dec_record_elems(spec_enc_record_elems(ms) + rest, ms.len()) == Option::Some(
            (ms, rest),
        ),
    decreases ms.len(),
{
    if ms.len() == 0 {
        assert(spec_enc_record_elems(ms) + rest =~= rest);
    } else {
        let tail = ms.drop_first();
        vstd::seq_lib::lemma_concat_associative(
            spec_enc_pci_record(ms[0]),
            spec_enc_record_elems(tail),
            rest,
        );
        lemma_rt_pci_record(ms[0], spec_enc_record_elems(tail) + rest);
        lemma_rt_record_elems(tail, rest);
        assert(seq![ms[0]] + tail =~= ms);
    }
}

/// Encoding of a PCI record listing: a count, then each record.
pub open spec fn spec_enc_pci_records(ms: Seq<PciRecordV0>) -> Seq<u8>
    recommends
        ms.len() <= u64::MAX,
{
    spec_enc_u64(ms.len() as u64) + spec_enc_record_elems(ms)
}

pub open spec fn spec_dec_pci_records(s: Seq<u8>) -> Option<(Seq<PciRecordV0>, Seq<u8>)> {
    match spec_dec_u64(s) {
        Option::Some((n, r)) => spec_dec_record_elems(r, n as nat),
        Option::None => Option::None,
    }
}

#[verifier::spinoff_prover]
pub proof fn lemma_rt_pci_records(ms: Seq<PciRecordV0>, rest: Seq<u8>)
    requires
        ms.len() <= u64::MAX,
    ensures
        spec_dec_pci_records(spec_enc_pci_records(ms) + rest) == Option::Some((ms, rest)),
{
    lemma_rt_u64(ms.len() as u64, spec_enc_record_elems(ms) + rest);
    assert(spec_enc_pci_records(ms) + rest =~= spec_enc_u64(ms.len() as u64) + (
    spec_enc_record_elems(ms) + rest));
    lemma_rt_record_elems(ms, rest);
}

/// Append the encoding of a PCI record listing.
pub fn enc_pci_records(out: &mut Vec<u8>, v: &Vec<PciRecordV0>)
    ensures
        final(out)@ == old(out)@ + spec_enc_pci_records(v@),
{
    let n: u64 = v.len() as u64;
    enc_u64(out, n);
    let ghost base = out@;
    proof {
        assert(v@.take(0) =~= Seq::<PciRecordV0>::empty());
        assert(base + spec_enc_record_elems(v@.take(0)) =~= base);
    }
    let mut i: usize = 0;
    while i < v.len()
        invariant
            i <= v@.len(),
            out@ == base + spec_enc_record_elems(v@.take(i as int)),
        decreases v@.len() - i,
    {
        enc_pci_record(out, &v[i]);
        proof {
            lemma_enc_record_elems_snoc(v@.take(i as int), v@[i as int]);
            assert(v@.take(i as int).push(v@[i as int]) =~= v@.take(i as int + 1));
            assert(base + spec_enc_record_elems(v@.take(i as int)) + spec_enc_pci_record(
                v@[i as int],
            ) =~= base + spec_enc_record_elems(v@.take(i as int + 1)));
        }
        i = i + 1;
    }
    proof {
        assert(v@.take(v@.len() as int) =~= v@);
        assert(base + spec_enc_record_elems(v@) =~= old(out)@ + spec_enc_pci_records(v@));
    }
}

/// Decode a PCI record listing at `pos`.
pub fn dec_pci_records(buf: &[u8], pos: usize) -> (r: Result<(Vec<PciRecordV0>, usize), CodecError>)
    requires
        pos <= buf@.len(),
    ensures
        match r {
            Result::Ok(vp) => pos <= vp.1 <= buf@.len() && spec_dec_pci_records(
                buf@.skip(pos as int),
            ) == Option::Some((vp.0@, buf@.skip(vp.1 as int))),
            Result::Err(_) => spec_dec_pci_records(buf@.skip(pos as int)) is None,
        },
{
    match dec_u64(buf, pos) {
        Result::Err(e) => Result::Err(e),
        Result::Ok((n, p0)) => {
            let ghost s0 = buf@.skip(p0 as int);
            proof {
                match spec_dec_record_elems(s0, n as nat) {
                    Option::Some(t) => {
                        assert(Seq::<PciRecordV0>::empty() + t.0 =~= t.0);
                    },
                    Option::None => {},
                }
            }
            let mut acc: Vec<PciRecordV0> = Vec::new();
            let mut p: usize = p0;
            let mut i: u64 = 0;
            while i < n
                invariant
                    i <= n,
                    pos <= p <= buf@.len(),
                    acc@.len() == i,
                    spec_dec_u64(buf@.skip(pos as int)) == Option::Some((n, s0)),
                    spec_dec_record_elems(s0, n as nat) == (match spec_dec_record_elems(
                        buf@.skip(p as int),
                        (n - i) as nat,
                    ) {
                        Option::Some(t) => Option::Some((acc@ + t.0, t.1)),
                        Option::None => Option::None::<(Seq<PciRecordV0>, Seq<u8>)>,
                    }),
                decreases n - i,
            {
                match dec_pci_record(buf, p) {
                    Result::Ok((v, p2)) => {
                        proof {
                            match spec_dec_record_elems(buf@.skip(p2 as int), (n - i - 1) as nat) {
                                Option::Some(t) => {
                                    assert(acc@ + (seq![v] + t.0) =~= acc@.push(v) + t.0);
                                },
                                Option::None => {},
                            }
                        }
                        acc.push(v);
                        p = p2;
                        i = i + 1;
                    },
                    Result::Err(e) => {
                        proof {
                            assert(spec_dec_record_elems(buf@.skip(p as int), (n - i) as nat)
                                is None);
                        }
                        return Result::Err(e);
                    },
                }
            }
            proof {
                assert(acc@ + Seq::<PciRecordV0>::empty() =~= acc@);
            }
            Result::Ok((acc, p))
        },
    }
}

/// The PCI records of a machine's GPUs.
#[derive(Debug, Clone)]
pub struct GpusV0 {
    pub pci_records: Vec<PciRecordV0>,
}

// ---------------------------------------------------------------------------
// The system-setup message.
// ---------------------------------------------------------------------------

/// Host inventory reported when a machine registers.
#[derive(Debug, Clone)]
pub struct SystemSetupV0 {
    pub cpu_info: CpuInfoV0,
    pub distro_info: DistroInfoV0,
    pub gpu_info: GpuInfoV0,
    pub gpus: GpusV0,
}

/// Mathematical model of [`SystemSetupV0`]: the PCI records as a sequence.
pub struct SystemSetupV0View {
    pub cpu_info: CpuInfoV0,
    pub distro_info: DistroInfoV0,
    pub gpu_info: GpuInfoV0,
    pub gpus: Seq<PciRecordV0>,
}

impl View for SystemSetupV0 {
    type V = SystemSetupV0View;

    open spec fn view(&self) -> SystemSetupV0View {
        SystemSetupV0View {
            cpu_info: self.cpu_info,
            distro_info: self.distro_info,
            gpu_info: self.gpu_info,
            gpus: self.gpus.pci_records@,
        }
    }
}

pub open spec fn spec_enc_system_setup(m: SystemSetupV0View) -> Seq<u8>
    recommends
        m.gpus.len() <= u64::MAX,
{
    spec_enc_cpu_info(m.cpu_info) + spec_enc_distro_info(m.distro_info) + spec_enc_gpu_info(
        m.gpu_info,
    ) + spec_enc_pci_records(m.gpus)
}

pub open spec fn spec_dec_system_setup(s: Seq<u8>) -> Option<(SystemSetupV0View, Seq<u8>)> {
    match spec_dec_cpu_info(s) {
        Option::Some((cpu_info, r1)) => match spec_dec_distro_info(r1) {
            Option::Some((distro_info, r2)) => match spec_dec_gpu_info(r2) {
                Option::Some((gpu_info, r3)) => match spec_dec_pci_records(r3) {
                    Option::Some((gpus, r4)) => Option::Some(
                        (SystemSetupV0View { cpu_info, distro_info, gpu_info, gpus }, r4),
                    ),
                    Option::None => Option::None,
                },
                Option::None => Option::None,
            },
            Option::None => Option::None,
        },
        Option::None => Option::None,
    }
}

pub proof fn lemma_rt_system_setup(m: SystemSetupV0View, rest: Seq<u8>)
    requires
        m.gpus.len() <= u64::MAX,
    ensures
        spec_dec_system_setup(spec_enc_system_setup(m) + rest) == Option::Some((m, rest)),
{
    let e2 = spec_enc_distro_info(m.distro_info);
    let e3 = spec_enc_gpu_info(m.gpu_info);
    let e4 = spec_enc_pci_records(m.gpus);
    assert(spec_enc_system_setup(m) + rest =~= spec_enc_cpu_info(m.cpu_info) + (e2 + (e3 + (e4
        + rest))));
    lemma_rt_cpu_info(m.cpu_info, e2 + (e3 + (e4 + rest)));
    lemma_rt_distro_info(m.distro_info, e3 + (e4 + rest));
    lemma_rt_gpu_info(m.gpu_info, e4 + rest);
    lemma_rt_pci_records(m.gpus, rest);
}

impl crate::wire::Payload for SystemSetupV0 {
    open spec fn spec_enc(m: SystemSetupV0View) -> Seq<u8> {
        spec_enc_system_setup(m)
    }

    open spec fn spec_dec(bytes: Seq<u8>) -> Option<SystemSetupV0View> {
        match spec_dec_system_setup(bytes) {
            Option::Some((m, rest)) => if rest.len() == 0 {
                Option::Some(m)
            } else {
                Option::None
            },
            Option::None => Option::None,
        }
    }

    open spec fn model_wf(m: SystemSetupV0View) -> bool {
        m.gpus.len() <= u64::MAX
    }

    proof fn lemma_enc_dec(m: SystemSetupV0View) {
        if Self::model_wf(m) {
            lemma_rt_system_setup(m, Seq::empty());
            assert(spec_enc_system_setup(m) + Seq::<u8>::empty() =~= spec_enc_system_setup(m));
        }
    }

    fn encode_payload(&self) -> (r: Vec<u8>) {
        let mut out: Vec<u8> = Vec::new();
        enc_cpu_info(&mut out, &self.cpu_info);
        enc_distro_info(&mut out, &self.distro_info);
        enc_gpu_info(&mut out, &self.gpu_info);
        enc_pci_records(&mut out, &self.gpus.pci_records);
        proof {
            assert(out@ =~= spec_enc_system_setup(self@));
        }
        out
    }

    fn decode_payload(bytes: &[u8]) -> (r: Result<Self, CodecError>) {
        proof {
            assert(bytes@.skip(0) =~= bytes@);
        }
        match dec_cpu_info(bytes, 0) {
            Result::Ok((cpu_info, p1)) => match dec_distro_info(bytes, p1) {
                Result::Ok((distro_info, p2)) => match dec_gpu_info(bytes, p2) {
                    Result::Ok((gpu_info, p3)) => match dec_pci_records(bytes, p3) {
                        Result::Ok((records, p4)) => {
                            if p4 == bytes.len() {
                                Result::Ok(
                                    SystemSetupV0 {
                                        cpu_info,
                                        distro_info,
                                        gpu_info,
                                        gpus: GpusV0 { pci_records: records },
                                    },
                                )
                            } else {
                                Result::Err(CodecError)
                            }
                        },
                        Result::Err(e) => Result::Err(e),
                    },
                    Result::Err(e) => Result::Err(e),
                },
                Result::Err(e) => Result::Err(e),
            },
            Result::Err(e) => Result::Err(e),
        }
    }
}

impl crate::wire::Lineage for SystemSetupV0 {
    open spec fn spec_revision() -> u32 {
        0
    }

    open spec fn spec_decode_rev(wire_rev: u32, payload: Seq<u8>) -> Result<
        SystemSetupV0View,
        crate::wire::WireError,
    > {
        if wire_rev == 0 {
            match <Self as crate::wire::Payload>::spec_dec(payload) {
                Option::Some(m) => Result::Ok(m),
                Option::None => Result::Err(crate::wire::WireError::Codec(CodecError)),
            }
        } else {
            Result::Err(crate::wire::WireError::FutureSchema)
        }
    }

    fn revision() -> (r: u32) {
        0
    }

    fn decode_rev(wire_rev: u32, payload: &[u8]) -> (r: Result<Self, crate::wire::WireError>) {
        if wire_rev == Self::revision() {
            match <Self as crate::wire::Payload>::decode_payload(payload) {
                Result::Ok(v) => Result::Ok(v),
                Result::Err(e) => Result::Err(crate::wire::WireError::Codec(e)),
            }
        } else {
            Result::Err(crate::wire::WireError::FutureSchema)
        }
    }

    proof fn lemma_decode_shape(wire_rev: u32, payload: Seq<u8>) {
    }
}

impl crate::wire::Revise for SystemSetupV0 {
    type Previous = crate::wire::NoPrevious;

    open spec fn spec_migrate(prev: crate::wire::NoPrevious) -> Option<SystemSetupV0View> {
        Option::None
    }

    proof fn lemma_lineage() {
    }

    proof fn lemma_decode_older(wire_rev: u32, payload: Seq<u8>) {
    }

    fn migrate_from_previous(prev: crate::wire::NoPrevious) -> (r: Option<Self>) {
        Option::None
    }
}

// ---------------------------------------------------------------------------
// The machine-configuration message.
// ---------------------------------------------------------------------------

/// A device assignment in the local machine configuration.
#[derive(Debug, Clone)]
pub enum LocalDeviceV0 {
    PciSlot(String),
}

/// Mathematical model of [`LocalDeviceV0`]: the slot name as characters.
pub enum LocalDeviceV0View {
    PciSlot(Seq<char>),
}

pub open spec fn spec_local_device_view(d: LocalDeviceV0) -> LocalDeviceV0View {
    match d {
        LocalDeviceV0::PciSlot(s) => LocalDeviceV0View::PciSlot(s@),
    }
}

impl View for LocalDeviceV0 {
    type V = LocalDeviceV0View;

    open spec fn view(&self) -> LocalDeviceV0View {
        spec_local_device_view(*self)
    }
}

/// The device's slot name has a UTF-8 encoding the length prefix can carry.
pub open spec fn spec_local_device_wf(d: LocalDeviceV0View) -> bool {
    match d {
        LocalDeviceV0View::PciSlot(s) => vstd::utf8::encode_utf8(s).len() <= u64::MAX,
    }
}

pub open spec fn spec_enc_local_device(d: LocalDeviceV0View) -> Seq<u8> {
    match d {
        LocalDeviceV0View::PciSlot(s) => spec_enc_u32(0) + spec_enc_str(s),
    }
}

pub open spec fn spec_dec_local_device(s: Seq<u8>) -> Option<(LocalDeviceV0View, Seq<u8>)> {
    match spec_dec_u32(s) {
        Option::Some((t, r)) => if t == 0 {
            match spec_dec_str(r) {
                Option::Some((name, r2)) => Option::Some((LocalDeviceV0View::PciSlot(name), r2)),
                Option::None => Option::None,
            }
        } else {
            Option::None
        },
        Option::None => Option::None,
    }
}

pub proof fn lemma_rt_local_device(d: LocalDeviceV0View, rest: Seq<u8>)
    requires
        spec_local_device_wf(d),
    ensures
        spec_dec_local_device(spec_enc_local_device(d) + rest) == Option::Some((d, rest)),
{
    match d {
        LocalDeviceV0View::PciSlot(s) => {
            assert(spec_enc_local_device(d) + rest =~= spec_enc_u32(0) + (spec_enc_str(s) + rest));
            lemma_rt_u32(0, spec_enc_str(s) + rest);
            lemma_rt_str(s, rest);
        },
    }
}

pub fn enc_local_device(out: &mut Vec<u8>, d: &LocalDeviceV0)
    ensures
        final(out)@ == old(out)@ + spec_enc_local_device(d@),
{
    match d {
        LocalDeviceV0::PciSlot(s) => {
            enc_u32(out, 0);
            enc_str(out, s.as_str());
            assert(out@ =~= old(out)@ + spec_enc_local_device(d@));
        },
    }
}

pub fn dec_local_device(buf: &[u8], pos: usize) -> (r: Result<(LocalDeviceV0, usize), CodecError>)
    requires
        pos <= buf@.len(),
    ensures
        match r {
            Result::Ok(vp) => pos <= vp.1 <= buf@.len() && spec_dec_local_device(
                buf@.skip(pos as int),
            ) == Option::Some((vp.0@, buf@.skip(vp.1 as int))),
            Result::Err(_) => spec_dec_local_device(buf@.skip(pos as int)) is None,
        },
{
    match dec_u32(buf, pos) {
        Result::Ok((t, p)) => {
            if t == 0 {
                match dec_str(buf, p) {
                    Result::Ok((name, p2)) => Result::Ok((LocalDeviceV0::PciSlot(name), p2)),
                    Result::Err(e) => Result::Err(e),
                }
            } else {
                Result::Err(CodecError)
            }
        },
        Result::Err(e) => Result::Err(e),
    }
}

/// The models of a listing of local devices, in order.
pub open spec fn spec_device_views(ds: Seq<LocalDeviceV0>) -> Seq<LocalDeviceV0View> {
    Seq::new(ds.len(), |i: int| spec_local_device_view(ds[i]))
}

pub open spec fn spec_enc_device_elems(ms: Seq<LocalDeviceV0View>) -> Seq<u8>
    decreases ms.len(),
{
    if ms.len() == 0 {
        Seq::empty()
    } else {
        spec_enc_local_device(ms[0]) + spec_enc_device_elems(ms.drop_first())
    }
}

pub open spec fn spec_dec_device_elems(s: Seq<u8>, n: nat) -> Option<
    (Seq<LocalDeviceV0View>, Seq<u8>),
>
    decreases n,
{
    if n == 0 {
        Option::Some((Seq::empty(), s))
    } else {
        match spec_dec_local_device(s) {
            Option::Some((v, r)) => match spec_dec_device_elems(r, (n - 1) as nat) {
                Option::Some((vs, r2)) => Option::Some((seq![v] + vs, r2)),
                Option::None => Option::None,
            },
            Option::None => Option::None,
        }
    }
}

pub proof fn lemma_enc_device_elems_snoc(ms: Seq<LocalDeviceV0View>, x: LocalDeviceV0View)
    ensures
        spec_enc_device_elems(ms.push(x)) == spec_enc_device_elems(ms) + spec_enc_local_device(x),
    decreases ms.len(),
{
    if ms.len() == 0 {
        assert(ms.push(x)[0] == x);
        assert(ms.push(x).drop_first() =~= Seq::<LocalDeviceV0View>::empty());
        assert(spec_enc_device_elems(Seq::<LocalDeviceV0View>::empty()) == Seq::<u8>::empty());
        assert(ms =~= Seq::<LocalDeviceV0View>::empty());
        assert(spec_enc_device_elems(ms.push(x)) =~= spec_enc_device_elems(ms)
            + spec_enc_local_device(x));
    } else {
        assert(ms.push(x)[0] == ms[0]);
        assert(ms.push(x).drop_first() =~= ms.drop_first().push(x));
        lemma_enc_device_elems_snoc(ms.drop_first(), x);
        assert(spec_enc_device_elems(ms.push(x)) =~= spec_enc_device_elems(ms)
            + spec_enc_local_device(x));
    }
}

#[verifier::spinoff_prover]
#[verifier::rlimit(50)]
pub proof fn lemma_rt_device_elems(ms: Seq<LocalDeviceV0View>, rest: Seq<u8>)
    requires
        forall|i: int| 0 <= i < ms.len() ==> spec_local_device_wf(#[trigger] ms[i]),
    ensures
        spec_dec_device_elems(spec_enc_device_elems(ms) + rest, ms.len()) == Option::Some(
            (ms, rest),
        ),
    decreases ms.len(),
{
    if ms.len() == 0 {
        assert(spec_enc_device_elems(ms) + rest =~= rest);
    } else {
        let tail = ms.drop_first();
        vstd::seq_lib::lemma_concat_associative(
            spec_enc_local_device(ms[0]),
            spec_enc_device_elems(tail),
            rest,
        );
        lemma_rt_local_device(ms[0], spec_enc_device_elems(tail) + rest);
        lemma_rt_device_elems(tail, rest);
        assert(seq![ms[0]] + tail =~= ms);
    }
}

/// Encoding of a local device listing: a count, then each device.
pub open spec fn spec_enc_local_devices(ms: Seq<LocalDeviceV0View>) -> Seq<u8>
    recommends
        ms.len() <= u64::MAX,
{
    spec_enc_u64(ms.len() as u64) + spec_enc_device_elems(ms)
}

pub open spec fn spec_dec_local_devices(s: Seq<u8>) -> Option<(Seq<LocalDeviceV0View>, Seq<u8>)> {
    match spec_dec_u64(s) {
        Option::Some((n, r)) => spec_dec_device_elems(r, n as nat),
        Option::None => Option::None,
    }
}

#[verifier::spinoff_prover]
pub proof fn lemma_rt_local_devices(ms: Seq<LocalDeviceV0View>, rest: Seq<u8>)
    requires
        ms.len() <= u64::MAX,
        forall|i: int| 0 <= i < ms.len() ==> spec_local_device_wf(#[trigger] ms[i]),
    ensures
        spec_dec_local_devices(spec_enc_local_devices(ms) + rest) == Option::Some((ms, rest)),
{
    lemma_rt_u64(ms.len() as u64, spec_enc_device_elems(ms) + rest);
    assert(spec_enc_local_devices(ms) + rest =~= spec_enc_u64(ms.len() as u64) + (
    spec_enc_device_elems(ms) + rest));
    lemma_rt_device_elems(ms, rest);
}

/// Append the encoding of a local device listing.
pub fn enc_local_devices(out: &mut Vec<u8>, v: &Vec<LocalDeviceV0>)
    ensures
        final(out)@ == old(out)@ + spec_enc_local_devices(spec_device_views(v@)),
{
    let n: u64 = v.len() as u64;
    enc_u64(out, n);
    let ghost dviews = spec_device_views(v@);
    let ghost base = out@;
    proof {
        assert(dviews.take(0) =~= Seq::<LocalDeviceV0View>::empty());
        assert(base + spec_enc_device_elems(dviews.take(0)) =~= base);
    }
    let mut i: usize = 0;
    while i < v.len()
        invariant
            i <= v@.len(),
            dviews == spec_device_views(v@),
            dviews.len() == v@.len(),
            out@ == base + spec_enc_device_elems(dviews.take(i as int)),
        decreases v@.len() - i,
    {
        enc_local_device(out, &v[i]);
        proof {
            assert(dviews[i as int] == v@[i as int]@);
            lemma_enc_device_elems_snoc(dviews.take(i as int), dviews[i as int]);
            assert(dviews.take(i as int).push(dviews[i as int]) =~= dviews.take(i as int + 1));
            assert(base + spec_enc_device_elems(dviews.take(i as int)) + spec_enc_local_device(
                dviews[i as int],
            ) =~= base + spec_enc_device_elems(dviews.take(i as int + 1)));
        }
        i = i + 1;
    }
    proof {
        assert(dviews.take(dviews.len() as int) =~= dviews);
        assert(base + spec_enc_device_elems(dviews) =~= old(out)@ + spec_enc_local_devices(dviews));
    }
}

/// Decode a local device listing at `pos`.
pub fn dec_local_devices(buf: &[u8], pos: usize) -> (r: Result<
    (Vec<LocalDeviceV0>, usize),
    CodecError,
>)
    requires
        pos <= buf@.len(),
    ensures
        match r {
            Result::Ok(vp) => pos <= vp.1 <= buf@.len() && spec_dec_local_devices(
                buf@.skip(pos as int),
            ) == Option::Some((spec_device_views(vp.0@), buf@.skip(vp.1 as int))),
            Result::Err(_) => spec_dec_local_devices(buf@.skip(pos as int)) is None,
        },
{
    match dec_u64(buf, pos) {
        Result::Err(e) => Result::Err(e),
        Result::Ok((n, p0)) => {
            let ghost s0 = buf@.skip(p0 as int);
            proof {
                match spec_dec_device_elems(s0, n as nat) {
                    Option::Some(t) => {
                        assert(Seq::<LocalDeviceV0View>::empty() + t.0 =~= t.0);
                        assert(spec_device_views(Seq::<LocalDeviceV0>::empty())
                            =~= Seq::<LocalDeviceV0View>::empty());
                    },
                    Option::None => {},
                }
            }
            let mut acc: Vec<LocalDeviceV0> = Vec::new();
            let mut p: usize = p0;
            let mut i: u64 = 0;
            while i < n
                invariant
                    i <= n,
                    pos <= p <= buf@.len(),
                    acc@.len() == i,
                    spec_dec_u64(buf@.skip(pos as int)) == Option::Some((n, s0)),
                    spec_dec_device_elems(s0, n as nat) == (match spec_dec_device_elems(
                        buf@.skip(p as int),
                        (n - i) as nat,
                    ) {
                        Option::Some(t) => Option::Some((spec_device_views(acc@) + t.0, t.1)),
                        Option::None => Option::None::<(Seq<LocalDeviceV0View>, Seq<u8>)>,
                    }),
                decreases n - i,
            {
                match dec_local_device(buf, p) {
                    Result::Ok((v, p2)) => {
                        proof {
                            assert(spec_device_views(acc@.push(v)) =~= spec_device_views(
                                acc@,
                            ).push(v@));
                            match spec_dec_device_elems(buf@.skip(p2 as int), (n - i - 1) as nat) {
                                Option::Some(t) => {
                                    assert(spec_device_views(acc@) + (seq![v@] + t.0)
                                        =~= spec_device_views(acc@).push(v@) + t.0);
                                },
                                Option::None => {},
                            }
                        }
                        acc.push(v);
                        p = p2;
                        i = i + 1;
                    },
                    Result::Err(e) => {
                        proof {
                            assert(spec_dec_device_elems(buf@.skip(p as int), (n - i) as nat)
                                is None);
                        }
                        return Result::Err(e);
                    },
                }
            }
            proof {
                assert(spec_device_views(acc@) + Seq::<LocalDeviceV0View>::empty()
                    =~= spec_device_views(acc@));
            }
            Result::Ok((acc, p))
        },
    }
}

/// Worker and device configuration of the local machine.
#[derive(Debug, Clone)]
pub struct LocalMachineV0 {
    pub task_workers: u32,
    pub gpus: Vec<LocalDeviceV0>,
}

/// Mathematical model of [`LocalMachineV0`].
pub struct LocalMachineV0View {
    pub task_workers: u32,
    pub gpus: Seq<LocalDeviceV0View>,
}

impl View for LocalMachineV0 {
    type V = LocalMachineV0View;

    open spec fn view(&self) -> LocalMachineV0View {
        LocalMachineV0View { task_workers: self.task_workers, gpus: spec_device_views(self.gpus@) }
    }
}

pub open spec fn spec_local_machine_wf(m: LocalMachineV0View) -> bool {
    m.gpus.len() <= u64::MAX && forall|i: int|
        0 <= i < m.gpus.len() ==> spec_local_device_wf(#[trigger] m.gpus[i])
}

pub open spec fn spec_enc_local_machine(m: LocalMachineV0View) -> Seq<u8>
    recommends
        spec_local_machine_wf(m),
{
    spec_enc_u32(m.task_workers) + spec_enc_local_devices(m.gpus)
}

pub open spec fn spec_dec_local_machine(s: Seq<u8>) -> Option<(LocalMachineV0View, Seq<u8>)> {
    match spec_dec_u32(s) {
        Option::Some((task_workers, r1)) => match spec_dec_local_devices(r1) {
            Option::Some((gpus, r2)) => Option::Some(
                (LocalMachineV0View { task_workers, gpus }, r2),
            ),
            Option::None => Option::None,
        },
        Option::None => Option::None,
    }
}

pub proof fn lemma_rt_local_machine(m: LocalMachineV0View, rest: Seq<u8>)
    requires
        spec_local_machine_wf(m),
    ensures
        spec_dec_local_machine(spec_enc_local_machine(m) + rest) == Option::Some((m, rest)),
{
    assert(spec_enc_local_machine(m) + rest =~= spec_enc_u32(m.task_workers) + (
    spec_enc_local_devices(m.gpus) + rest));
    lemma_rt_u32(m.task_workers, spec_enc_local_devices(m.gpus) + rest);
    lemma_rt_local_devices(m.gpus, rest);
}

pub fn enc_local_machine(out: &mut Vec<u8>, m: &LocalMachineV0)
    ensures
        final(out)@ == old(out)@ + spec_enc_local_machine(m@),
{
    enc_u32(out, m.task_workers);
    enc_local_devices(out, &m.gpus);
    assert(out@ =~= old(out)@ + spec_enc_local_machine(m@));
}

pub fn dec_local_machine(buf: &[u8], pos: usize) -> (r: Result<(LocalMachineV0, usize), CodecError>)
    requires
        pos <= buf@.len(),
    ensures
        match r {
            Result::Ok(vp) => pos <= vp.1 <= buf@.len() && spec_dec_local_machine(
                buf@.skip(pos as int),
            ) == Option::Some((vp.0@, buf@.skip(vp.1 as int))),
            Result::Err(_) => spec_dec_local_machine(buf@.skip(pos as int)) is None,
        },
{
    match dec_u32(buf, pos) {
        Result::Ok((task_workers, p1)) => match dec_local_devices(buf, p1) {
            Result::Ok((gpus, p2)) => Result::Ok((LocalMachineV0 { task_workers, gpus }, p2)),
            Result::Err(e) => Result::Err(e),
        },
        Result::Err(e) => Result::Err(e),
    }
}

/// Configuration a machine reports when it registers.
#[derive(Debug, Clone)]
pub struct MachineConfigV0 {
    pub local_machine: LocalMachineV0,
}

/// Mathematical model of [`MachineConfigV0`].
pub struct MachineConfigV0View {
    pub local_machine: LocalMachineV0View,
}

impl View for MachineConfigV0 {
    type V = MachineConfigV0View;

    open spec fn view(&self) -> MachineConfigV0View {
        MachineConfigV0View { local_machine: self.local_machine@ }
    }
}

impl crate::wire::Payload for MachineConfigV0 {
    open spec fn spec_enc(m: MachineConfigV0View) -> Seq<u8> {
        spec_enc_local_machine(m.local_machine)
    }

    open spec fn spec_dec(bytes: Seq<u8>) -> Option<MachineConfigV0View> {
        match spec_dec_local_machine(bytes) {
            Option::Some((m, rest)) => if rest.len() == 0 {
                Option::Some(MachineConfigV0View { local_machine: m })
            } else {
                Option::None
            },
            Option::None => Option::None,
        }
    }

    open spec fn model_wf(m: MachineConfigV0View) -> bool {
        spec_local_machine_wf(m.local_machine)
    }

    proof fn lemma_enc_dec(m: MachineConfigV0View) {
        if Self::model_wf(m) {
            lemma_rt_local_machine(m.local_machine, Seq::empty());
            assert(spec_enc_local_machine(m.local_machine) + Seq::<u8>::empty()
                =~= spec_enc_local_machine(m.local_machine));
        }
    }

    fn encode_payload(&self) -> (r: Vec<u8>) {
        let mut out: Vec<u8> = Vec::new();
        enc_local_machine(&mut out, &self.local_machine);
        proof {
            assert(out@ =~= spec_enc_local_machine(self@.local_machine));
        }
        out
    }

    fn decode_payload(bytes: &[u8]) -> (r: Result<Self, CodecError>) {
        proof {
            assert(bytes@.skip(0) =~= bytes@);
        }
        match dec_local_machine(bytes, 0) {
            Result::Ok((local_machine, p)) => {
                if p == bytes.len() {
                    Result::Ok(MachineConfigV0 { local_machine })
                } else {
                    Result::Err(CodecError)
                }
            },
            Result::Err(e) => Result::Err(e),
        }
    }
}

impl crate::wire::Lineage for MachineConfigV0 {
    open spec fn spec_revision() -> u32 {
        0
    }

    open spec fn spec_decode_rev(wire_rev: u32, payload: Seq<u8>) -> Result<
        MachineConfigV0View,
        crate::wire::WireError,
    > {
        if wire_rev == 0 {
            match <Self as crate::wire::Payload>::spec_dec(payload) {
                Option::Some(m) => Result::Ok(m),
                Option::None => Result::Err(crate::wire::WireError::Codec(CodecError)),
            }
        } else {
            Result::Err(crate::wire::WireError::FutureSchema)
        }
    }

    fn revision() -> (r: u32) {
        0
    }

    fn decode_rev(wire_rev: u32, payload: &[u8]) -> (r: Result<Self, crate::wire::WireError>) {
        if wire_rev == Self::revision() {
            match <Self as crate::wire::Payload>::decode_payload(payload) {
                Result::Ok(v) => Result::Ok(v),
                Result::Err(e) => Result::Err(crate::wire::WireError::Codec(e)),
            }
        } else {
            Result::Err(crate::wire::WireError::FutureSchema)
        }
    }

    proof fn lemma_decode_shape(wire_rev: u32, payload: Seq<u8>) {
    }
}

impl crate::wire::Revise for MachineConfigV0 {
    type Previous = crate::wire::NoPrevious;

    open spec fn spec_migrate(prev: crate::wire::NoPrevious) -> Option<MachineConfigV0View> {
        Option::None
    }

    proof fn lemma_lineage() {
    }

    proof fn lemma_decode_older(wire_rev: u32, payload: Seq<u8>) {
    }

    fn migrate_from_previous(prev: crate::wire::NoPrevious) -> (r: Option<Self>) {
        Option::None
    }
}

// ---------------------------------------------------------------------------
// Registry conversation messages. These declare the remaining catalog
// shapes; no payload codec is defined for them here, so they do not take
// part in envelope decoding.
// ---------------------------------------------------------------------------

/// Messages sent from a bot to the registry.
#[derive(Debug, Clone)]
pub enum Bot2RegistryV0 {
    _Ping {
        api_key: Vec<u8>,
        machine_key: Vec<u8>,
    },
    _NewCiRun(Option<_NewCiRunV0>),
    _StartCiTask {
        api_key: Vec<u8>,
        machine_key: Vec<u8>,
        ci_run_key: Vec<u8>,
        task_nr: u64,
        task_name: Option<String>,
        taskspec: Option<Vec<u8>>,
        ts: Option<String>,
    },
    _AppendCiTaskData {
        api_key: Vec<u8>,
        ci_run_key: Vec<u8>,
        task_nr: u64,
        part_nr: u64,
        ts: Option<String>,
        key: String,
        data: Vec<u8>,
    },
    _DoneCiTask {
        api_key: Vec<u8>,
        ci_run_key: Vec<u8>,
        task_nr: u64,
        failed: bool,
        ts: Option<String>,
    },
    Auth {
        api_key: Vec<u8>,
    },
    RegisterCiGroupMachine {
        api_key: Vec<u8>,
        machine_key: Vec<u8>,
        group_key: Vec<u8>,
    },
    RegisterCiMachine {
        api_key: Vec<u8>,
        machine_key: Vec<u8>,
        repo_url: String,
    },
    RegisterCiRepo {
        api_key: Vec<u8>,
        group_key: Option<Vec<u8>>,
        repo_url: String,
    },
    RegisterMachine {
        api_key: Vec<u8>,
        machine_key: Vec<u8>,
        system_setup: SystemSetupV0,
        machine_cfg: MachineConfigV0,
    },
    Unauth {
        api_key: Vec<u8>,
    },
    UnregisterCiMachine,
    UnregisterCiRepo,
    UnregisterMachine,
}

/// Reply alternatives for a new CI run.
#[derive(Debug, Clone)]
pub enum _NewCiRunV0 {
    Accept {
        api_key: Vec<u8>,
        ci_run_key: Vec<u8>,
        task_count: Option<u64>,
        failed_early: bool,
        ts: Option<String>,
    },
    Redirect {
        api_key: Vec<u8>,
        machine_key: Vec<u8>,
    },
    Reject {
        api_key: Vec<u8>,
    },
}

/// Messages sent from the registry back to a bot.
#[derive(Debug, Clone)]
pub enum Registry2BotV0 {
    _Pong,
    _NewCiRun {
        api_key: Vec<u8>,
        ci_run_key: Vec<u8>,
        repo_clone_url: String,
        originator: Option<(String, Option<String>)>,
        ref_full: Option<String>,
        commit_hash: Option<String>,
        runspec: Option<Vec<u8>>,
    },
    _StartCiTask(Option<_StartCiTaskV0>),
    _AppendCiTaskData(Option<()>),
    _DoneCiTask(Option<()>),
    Auth(Option<()>),
    RegisterCiGroupMachine(Option<()>),
    RegisterCiMachine(Option<()>),
    RegisterCiRepo(Option<RegisterCiRepoV0>),
    RegisterMachine(Option<()>),
    Unauth(Option<()>),
    UnregisterCiMachine(Option<()>),
    UnregisterCiRepo(Option<()>),
    UnregisterMachine(Option<()>),
}

/// Keys identifying a started CI task.
#[derive(Debug, Clone)]
pub struct _StartCiTaskV0 {
    pub api_key: Vec<u8>,
    pub ci_run_key: Vec<u8>,
    pub ci_task_key: Vec<u8>,
    pub task_nr: u64,
}

/// Repository and webhook details returned after registering a CI repo.
#[derive(Debug, Clone)]
pub struct RegisterCiRepoV0 {
    pub repo_web_url: String,
    pub webhook_payload_url: String,
    pub webhook_settings_url: Option<String>,
    pub webhook_secret: String,
}

// ---------------------------------------------------------------------------
// Human-readable summaries.
// ---------------------------------------------------------------------------

/// The short name [`CudaVersionV0::to_desc_str`] renders.
pub open spec fn spec_cuda_desc(v: CudaVersionV0) -> Seq<char> {
    "v"@ + spec_dec_digits(v.major as nat) + "_"@ + spec_dec_digits(v.minor as nat)
}

impl CudaVersionV0 {
    pub fn to_desc_str(&self) -> (r: String)
        ensures
            r@ == spec_cuda_desc(*self),
    {
        let mut buf = String::new();
        buf.append("v");
        push_dec_u64(&mut buf, self.major as u64);
        buf.append("_");
        push_dec_u64(&mut buf, self.minor as u64);
        proof {
            assert(buf@ =~= spec_cuda_desc(*self));
        }
        buf
    }
}

/// The opening lines of the summary: CPU and distribution.
pub open spec fn spec_pp_head(s: SystemSetupV0) -> Seq<char> {
    "cpu:\n"@ + "  arch: "@ + spec_cpu_arch_desc(s.cpu_info.arch) + "\n"@ + "  num cpus: "@
        + spec_dec_digits(s.cpu_info.num_cpus as nat) + "\n"@ + "distro: "@ + spec_distro_id_desc(
        s.distro_info.id,
    ) + "\n"@ + (match s.distro_info.codename {
        Option::Some(c) => "  codename: "@ + spec_codename_desc(c) + "\n"@,
        Option::None => Seq::empty(),
    })
}

/// The driver and CUDA lines of the summary; empty when nothing is known.
pub open spec fn spec_pp_gpu_info(g: GpuInfoV0) -> Seq<char> {
    if g.driver_version is Some || g.driver_cuda_version is Some || g.toolkit_cuda_version
        is Some {
        "gpu info:\n"@ + (match g.driver_version {
            Option::Some(d) => "  nvidia driver: "@ + spec_dec_digits(d.major as nat) + "."@
                + spec_dec_digits(d.minor as nat) + "\n"@,
            Option::None => Seq::empty(),
        }) + (match g.driver_cuda_version {
            Option::Some(v) => "  cuda (driver): "@ + spec_cuda_desc(v) + "\n"@,
            Option::None => Seq::empty(),
        }) + (match g.toolkit_cuda_version {
            Option::Some(v) => "  cuda (toolkit): "@ + spec_cuda_desc(v) + "\n"@,
            Option::None => Seq::empty(),
        })
    } else {
        Seq::empty()
    }
}

/// The heading line of one PCI record.
pub open spec fn spec_pp_rec_head(idx: nat) -> Seq<char> {
    "  gpu "@ + spec_dec_digits(idx) + ":\n"@
}

/// The slot line of one PCI record.
pub open spec fn spec_pp_rec_slot(slot: PciSlotV0) -> Seq<char> {
    "    pci slot: "@ + (match slot.domain {
        Option::Some(d) => spec_hex8(d) + ":"@,
        Option::None => Seq::empty(),
    }) + spec_hex2(slot.bus) + ":"@ + spec_hex2(slot.device) + "."@ + spec_hex2(slot.function)
        + "\n"@
}

/// The flags line of one PCI record.
pub open spec fn spec_pp_rec_flags(r: PciRecordV0) -> Seq<char> {
    "    flags:"@ + (if spec_is_vga(r) {
        " vga"@
    } else {
        Seq::empty()
    }) + (if spec_is_nvidia(r) {
        " nvidia"@
    } else {
        Seq::empty()
    }) + "\n"@
}

/// The class line of one PCI record.
pub open spec fn spec_pp_rec_class(r: PciRecordV0) -> Seq<char> {
    "    class: "@ + spec_hex4(r.class) + "\n"@
}

/// The vendor line of one PCI record.
pub open spec fn spec_pp_rec_vendor(r: PciRecordV0) -> Seq<char> {
    "    vendor: "@ + spec_hex4(r.vendor) + " device: "@ + spec_hex4(r.device) + (match r.rev {
        Option::Some(x) => " rev: "@ + spec_hex2(x),
        Option::None => Seq::empty(),
    }) + "\n"@
}

/// The subsystem line of one PCI record; empty when nothing is known.
pub open spec fn spec_pp_rec_sub(r: PciRecordV0) -> Seq<char> {
    if r.svendor is Some || r.sdevice is Some {
        "   "@ + (match r.svendor {
            Option::Some(x) => " sub vendor: "@ + spec_hex4(x),
            Option::None => Seq::empty(),
        }) + (match r.sdevice {
            Option::Some(x) => " sub device: "@ + spec_hex4(x),
            Option::None => Seq::empty(),
        }) + "\n"@
    } else {
        Seq::empty()
    }
}

/// One PCI record of the summary, with its position in the listing.
pub open spec fn spec_pp_record(r: PciRecordV0, idx: nat) -> Seq<char> {
    spec_pp_rec_head(idx) + spec_pp_rec_slot(r.slot) + spec_pp_rec_flags(r) + spec_pp_rec_class(r)
        + spec_pp_rec_vendor(r) + spec_pp_rec_sub(r)
}

/// The records of the summary from position `i` on.
pub open spec fn spec_pp_records(rs: Seq<PciRecordV0>, i: nat) -> Seq<char>
    decreases rs.len() - i,
{
    if i >= rs.len() {
        Seq::empty()
    } else {
        spec_pp_record(rs[i as int], i) + spec_pp_records(rs, i + 1)
    }
}

/// The whole human-readable summary `prettyprinted` renders.
pub open spec fn spec_prettyprint(s: SystemSetupV0) -> Seq<char> {
    spec_pp_head(s) + spec_pp_gpu_info(s.gpu_info) + (if s.gpus.pci_records@.len() > 0 {
        "gpus:\n"@ + spec_pp_records(s.gpus.pci_records@, 0)
    } else {
        Seq::empty()
    })
}

/// Append the heading line of one PCI record.
fn push_rec_head(out: &mut String, idx: u64)
    ensures
        final(out)@ == old(out)@ + spec_pp_rec_head(idx as nat),
{
    out.append("  gpu ");
    push_dec_u64(out, idx);
    out.append(":\n");
    assert(out@ =~= old(out)@ + spec_pp_rec_head(idx as nat));
}

/// Append the slot line of one PCI record.
fn push_rec_slot(out: &mut String, slot: &PciSlotV0)
    ensures
        final(out)@ == old(out)@ + spec_pp_rec_slot(*slot),
{
    out.append("    pci slot: ");
    match &slot.domain {
        Option::Some(d) => {
            push_hex8(out, *d);
            out.append(":");
        },
        Option::None => {},
    }
    push_hex2(out, slot.bus);
    out.append(":");
    push_hex2(out, slot.device);
    out.append(".");
    push_hex2(out, slot.function);
    out.append("\n");
    assert(out@ =~= old(out)@ + spec_pp_rec_slot(*slot));
}

/// Append the flags line of one PCI record.
fn push_rec_flags(out: &mut String, rec: &PciRecordV0)
    ensures
        final(out)@ == old(out)@ + spec_pp_rec_flags(*rec),
{
    out.append("    flags:");
    if rec.is_vga() {
        out.append(" vga");
    }
    if rec.is_nvidia() {
        out.append(" nvidia");
    }
    out.append("\n");
    assert(out@ =~= old(out)@ + spec_pp_rec_flags(*rec));
}

/// Append the class line of one PCI record.
fn push_rec_class(out: &mut String, rec: &PciRecordV0)
    ensures
        final(out)@ == old(out)@ + spec_pp_rec_class(*rec),
{
    out.append("    class: ");
    push_hex4(out, rec.class);
    out.append("\n");
    assert(out@ =~= old(out)@ + spec_pp_rec_class(*rec));
}

/// Append the vendor line of one PCI record.
fn push_rec_vendor(out: &mut String, rec: &PciRecordV0)
    ensures
        final(out)@ == old(out)@ + spec_pp_rec_vendor(*rec),
{
    out.append("    vendor: ");
    push_hex4(out, rec.vendor);
    out.append(" device: ");
    push_hex4(out, rec.device);
    match &rec.rev {
        Option::Some(x) => {
            out.append(" rev: ");
            push_hex2(out, *x);
        },
        Option::None => {},
    }
    out.append("\n");
    assert(out@ =~= old(out)@ + spec_pp_rec_vendor(*rec));
}

/// Append the subsystem line of one PCI record.
fn push_rec_sub(out: &mut String, rec: &PciRecordV0)
    ensures
        final(out)@ == old(out)@ + spec_pp_rec_sub(*rec),
{
    if rec.svendor.is_some() || rec.sdevice.is_some() {
        out.append("   ");
        match &rec.svendor {
            Option::Some(x) => {
                out.append(" sub vendor: ");
                push_hex4(out, *x);
            },
            Option::None => {},
        }
        match &rec.sdevice {
            Option::Some(x) => {
                out.append(" sub device: ");
                push_hex4(out, *x);
            },
            Option::None => {},
        }
        out.append("\n");
    }
    assert(out@ =~= old(out)@ + spec_pp_rec_sub(*rec));
}

/// Append one whole PCI record of the summary.
fn push_pp_record(out: &mut String, rec: &PciRecordV0, idx: u64)
    ensures
        final(out)@ == old(out)@ + spec_pp_record(*rec, idx as nat),
{
    push_rec_head(out, idx);
    push_rec_slot(out, &rec.slot);
    push_rec_flags(out, rec);
    push_rec_class(out, rec);
    push_rec_vendor(out, rec);
    push_rec_sub(out, rec);
    assert(out@ =~= old(out)@ + spec_pp_record(*rec, idx as nat));
}

/// Append the driver and CUDA lines of the summary.
#[verifier::spinoff_prover]
#[verifier::rlimit(100)]
fn push_pp_gpu_info(out: &mut String, g: &GpuInfoV0)
    ensures
        final(out)@ == old(out)@ + spec_pp_gpu_info(*g),
{
    if g.driver_version.is_some() || g.driver_cuda_version.is_some()
        || g.toolkit_cuda_version.is_some() {
        out.append("gpu info:\n");
        let ghost c0 = out@;
        match &g.driver_version {
            Option::Some(d) => {
                out.append("  nvidia driver: ");
                push_dec_u64(out, d.major as u64);
                out.append(".");
                push_dec_u64(out, d.minor as u64);
                out.append("\n");
                assert(out@ =~= c0 + ("  nvidia driver: "@ + spec_dec_digits(d.major as nat)
                    + "."@ + spec_dec_digits(d.minor as nat) + "\n"@));
            },
            Option::None => {},
        }
        let ghost c1 = out@;
        match &g.driver_cuda_version {
            Option::Some(v) => {
                out.append("  cuda (driver): ");
                let d = v.to_desc_str();
                out.append(d.as_str());
                out.append("\n");
                assert(out@ =~= c1 + ("  cuda (driver): "@ + spec_cuda_desc(*v) + "\n"@));
            },
            Option::None => {},
        }
        let ghost c2 = out@;
        match &g.toolkit_cuda_version {
            Option::Some(v) => {
                out.append("  cuda (toolkit): ");
                let d = v.to_desc_str();
                out.append(d.as_str());
                out.append("\n");
                assert(out@ =~= c2 + ("  cuda (toolkit): "@ + spec_cuda_desc(*v) + "\n"@));
            },
            Option::None => {},
        }
    }
    assert(out@ =~= old(out)@ + spec_pp_gpu_info(*g));
}

impl SystemSetupV0 {
    /// Render the machine inventory as an indented, line-oriented summary.
    pub fn prettyprinted(&self) -> (r: String)
        ensures
            r@ == spec_prettyprint(*self),
    {
        let mut buf = String::new();
        buf.append("cpu:\n");
        buf.append("  arch: ");
        buf.append(self.cpu_info.arch.to_desc_str());
        buf.append("\n");
        buf.append("  num cpus: ");
        push_dec_u64(&mut buf, self.cpu_info.num_cpus);
        buf.append("\n");
        buf.append("distro: ");
        buf.append(self.distro_info.id.to_desc_str());
        buf.append("\n");
        match &self.distro_info.codename {
            Option::Some(c) => {
                buf.append("  codename: ");
                buf.append(c.to_desc_str());
                buf.append("\n");
            },
            Option::None => {},
        }
        proof {
            assert(buf@ =~= spec_pp_head(*self));
        }
        push_pp_gpu_info(&mut buf, &self.gpu_info);
        let ghost after_info = buf@;
        let records = &self.gpus.pci_records;
        if records.len() > 0 {
            buf.append("gpus:\n");
            let ghost pre = buf@;
            let mut i: usize = 0;
            while i < records.len()
                invariant
                    i <= records@.len(),
                    pre + spec_pp_records(records@, 0) == buf@ + spec_pp_records(
                        records@,
                        i as nat,
                    ),
                decreases records@.len() - i,
            {
                let ghost start = buf@;
                push_pp_record(&mut buf, &records[i], i as u64);
                proof {
                    vstd::seq_lib::lemma_concat_associative(
                        start,
                        spec_pp_record(records@[i as int], i as nat),
                        spec_pp_records(records@, i as nat + 1),
                    );
                }
                i = i + 1;
            }
            proof {
                assert(buf@ + spec_pp_records(records@, records@.len()) =~= buf@);
            }
        }
        proof {
            assert(buf@ =~= spec_prettyprint(*self));
        }
        buf
    }
}

} // verus!
