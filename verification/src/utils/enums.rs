//! The surveys whose alerts are processed.
use vstd::prelude::*;

verus! {

#[derive(Clone, Copy, Debug, PartialEq, Eq, Structural)]
pub enum Survey {
    Ztf,
    Lsst,
    Decam,
}

impl Survey {
    /// The name that prefixes a survey's collections.
    pub open spec fn name(self) -> Seq<char> {
        match self {
            Survey::Ztf => "ZTF"@,
            Survey::Lsst => "LSST"@,
            Survey::Decam => "DECAM"@,
        }
    }

    /// The name in lower case.
    pub open spec fn lower_name(self) -> Seq<char> {
        match self {
            Survey::Ztf => "ztf"@,
            Survey::Lsst => "lsst"@,
            Survey::Decam => "decam"@,
        }
    }

    pub fn as_str(self) -> (name: &'static str)
        ensures
            name@ == self.name(),
    {
        match self {
            Survey::Ztf => "ZTF",
            Survey::Lsst => "LSST",
            Survey::Decam => "DECAM",
        }
    }

    pub fn lower(self) -> (name: &'static str)
        ensures
            name@ == self.lower_name(),
    {
        match self {
            Survey::Ztf => "ztf",
            Survey::Lsst => "lsst",
            Survey::Decam => "decam",
        }
    }
}

}
