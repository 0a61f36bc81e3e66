use vstd::prelude::*;

use crate::text::{decimal, decimal_bytes, push_char, push_decimal, push_decimal_bytes};

verus! {

/// Which lab assignment and task a submission belongs to.
#[derive(Clone, Copy, Debug, PartialEq, Eq)]
pub struct LabTask {
    pub lab: u32,
    pub task: u32,
}

/// Where the patch series is mailed to.
#[derive(Clone, Debug)]
pub struct MailConfig {
    pub to: String,
    pub suppress_cc: bool,
}

/// The commit that the submitted range starts after.
#[derive(Clone, Debug)]
pub struct GitConfig {
    pub root_commit: String,
}

/// All settings of a submission run.
#[derive(Clone, Debug)]
pub struct Config {
    pub test: LabTask,
    pub mail: MailConfig,
    pub git: GitConfig,
}

/// The label `lab<L>: task<T>:` that tags a submission.
pub open spec fn label_text(t: LabTask) -> Seq<char> {
    seq!['l', 'a', 'b'] + decimal(t.lab as nat) + seq![':', ' ', 't', 'a', 's', 'k'] + decimal(
        t.task as nat,
    ) + seq![':']
}

/// `label_text` as ASCII bytes.
pub open spec fn label_bytes(t: LabTask) -> Seq<u8> {
    seq![108u8, 97, 98] + decimal_bytes(t.lab as nat) + seq![58u8, 32, 116, 97, 115, 107]
        + decimal_bytes(t.task as nat) + seq![58u8]
}

impl LabTask {
    /// The human-readable tag, such as `lab3: task2:`.
    pub fn label(&self) -> (r: String)
        ensures
            r@ == label_text(*self),
    {
        let mut s = String::new();
        push_char(&mut s, 'l');
        push_char(&mut s, 'a');
        push_char(&mut s, 'b');
        push_decimal(&mut s, self.lab as u64);
        push_char(&mut s, ':');
        push_char(&mut s, ' ');
        push_char(&mut s, 't');
        push_char(&mut s, 'a');
        push_char(&mut s, 's');
        push_char(&mut s, 'k');
        push_decimal(&mut s, self.task as u64);
        push_char(&mut s, ':');
        assert(s@ =~= label_text(*self));
        s
    }

    /// The tag as the bytes that are written into a patch file.
    pub fn label_bytes(&self) -> (r: Vec<u8>)
        ensures
            r@ == label_bytes(*self),
    {
        let mut v: Vec<u8> = Vec::new();
        v.push(108u8);
        v.push(97u8);
        v.push(98u8);
        push_decimal_bytes(&mut v, self.lab as u64);
        v.push(58u8);
        v.push(32u8);
        v.push(116u8);
        v.push(97u8);
        v.push(115u8);
        v.push(107u8);
        push_decimal_bytes(&mut v, self.task as u64);
        v.push(58u8);
        assert(v@ =~= label_bytes(*self));
        v
    }
}

impl Default for LabTask {
    fn default() -> (r: Self)
        ensures
            r.lab == 3,
            r.task == 2,
    {
        LabTask { lab: 3, task: 2 }
    }
}

impl Default for MailConfig {
    fn default() -> (r: Self)
        ensures
            r.to@ == "lkp-maintainers@os.rwth-aachen.de"@,
            r.suppress_cc,
    {
        MailConfig { to: String::from_str("lkp-maintainers@os.rwth-aachen.de"), suppress_cc: true }
    }
}

impl Default for GitConfig {
    fn default() -> (r: Self)
        ensures
            r.root_commit@ == "v6.5.7"@,
    {
        GitConfig { root_commit: String::from_str("v6.5.7") }
    }
}

impl Default for Config {
    fn default() -> (r: Self)
        ensures
            r.test.lab == 3,
            r.test.task == 2,
            r.mail.to@ == "lkp-maintainers@os.rwth-aachen.de"@,
            r.mail.suppress_cc,
            r.git.root_commit@ == "v6.5.7"@,
    {
        Config { test: LabTask::default(), mail: MailConfig::default(), git: GitConfig::default() }
    }
}

} // verus!
