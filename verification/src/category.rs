//! Category selection: which of the nine metric groups a run reports.

use vstd::prelude::*;

verus! {

/// One of the nine top-level metric categories.
#[derive(Debug, Clone, Copy, PartialEq, Eq, Structural)]
pub enum Category {
    Cpu,
    Disk,
    LoadAvg,
    Memory,
    Network,
    Process,
    System,
    Temperature,
    User,
}

/// The inclusion decision for every category, resolved once from the request
/// list. Requesting nothing at all means: report everything.
#[derive(Debug, Clone, Copy, PartialEq, Eq, Structural)]
pub struct Selection {
    pub cpu: bool,
    pub disk: bool,
    pub load_avg: bool,
    pub memory: bool,
    pub network: bool,
    pub process: bool,
    pub system: bool,
    pub temperature: bool,
    pub user: bool,
}

/// Turn one category's inclusion flag on, leaving the rest untouched.
fn mark(s: &mut Selection, c: Category)
    ensures
        final(s).spec_selects(c),
        forall|d: Category| d != c ==> final(s).spec_selects(d) == old(s).spec_selects(d),
{
    match c {
        Category::Cpu => s.cpu = true,
        Category::Disk => s.disk = true,
        Category::LoadAvg => s.load_avg = true,
        Category::Memory => s.memory = true,
        Category::Network => s.network = true,
        Category::Process => s.process = true,
        Category::System => s.system = true,
        Category::Temperature => s.temperature = true,
        Category::User => s.user = true,
    }
}

impl Selection {
    /// Whether category `c` is included.
    pub open spec fn spec_selects(self, c: Category) -> bool {
        match c {
            Category::Cpu => self.cpu,
            Category::Disk => self.disk,
            Category::LoadAvg => self.load_avg,
            Category::Memory => self.memory,
            Category::Network => self.network,
            Category::Process => self.process,
            Category::System => self.system,
            Category::Temperature => self.temperature,
            Category::User => self.user,
        }
    }

    /// Resolve a request list: a category is included exactly when it was
    /// named, except that an empty list selects all nine.
    pub fn from_requested(req: &Vec<Category>) -> (s: Selection)
        ensures
            forall|c: Category| s.spec_selects(c) <==> (req@.len() == 0 || req@.contains(c)),
    {
        if req.len() == 0 {
            Selection {
                cpu: true,
                disk: true,
                load_avg: true,
                memory: true,
                network: true,
                process: true,
                system: true,
                temperature: true,
                user: true,
            }
        } else {
            let mut s = Selection {
                cpu: false,
                disk: false,
                load_avg: false,
                memory: false,
                network: false,
                process: false,
                system: false,
                temperature: false,
                user: false,
            };
            let mut i: usize = 0;
            while i < req.len()
                invariant
                    i <= req@.len(),
                    forall|c: Category|
                        s.spec_selects(c) <==> exists|j: int| 0 <= j < i && req@[j] == c,
                decreases req@.len() - i,
            {
                let ghost s_pre = s;
                let c = req[i];
                mark(&mut s, c);
                proof {
                    assert(req@[i as int] == c);
                    assert forall|d: Category| s.spec_selects(d) implies exists|j: int|
                        0 <= j < i + 1 && req@[j] == d by {
                        if d == c {
                            assert(req@[i as int] == d);
                        } else {
                            assert(s_pre.spec_selects(d));
                            assert(s_pre.spec_selects(d) <==> exists|j: int|
                                0 <= j < i && req@[j] == d);
                            let j = choose|j: int| 0 <= j < i && req@[j] == d;
                            assert(0 <= j < i + 1 && req@[j] == d);
                        }
                    }
                    assert forall|d: Category| (exists|j: int| 0 <= j < i + 1 && req@[j] == d)
                        implies s.spec_selects(d) by {
                        let j = choose|j: int| 0 <= j < i + 1 && req@[j] == d;
                        if j == i {
                            assert(d == c);
                        } else {
                            assert(s_pre.spec_selects(d) <==> exists|m: int|
                                0 <= m < i && req@[m] == d);
                            assert(req@[j] == d);
                            assert(s_pre.spec_selects(d));
                            if d != c {
                                assert(s.spec_selects(d) == s_pre.spec_selects(d));
                            }
                        }
                    }
                }
                i += 1;
            }
            s
        }
    }

    /// Whether category `c` is included.
    pub fn selects(&self, c: Category) -> (r: bool)
        ensures
            r == self.spec_selects(c),
    {
        match c {
            Category::Cpu => self.cpu,
            Category::Disk => self.disk,
            Category::LoadAvg => self.load_avg,
            Category::Memory => self.memory,
            Category::Network => self.network,
            Category::Process => self.process,
            Category::System => self.system,
            Category::Temperature => self.temperature,
            Category::User => self.user,
        }
    }

    /// Whether the run must acquire the full system snapshot at all: only the
    /// CPU, process and memory categories read it, so any other request
    /// pattern skips that (comparatively expensive) acquisition.
    pub fn needs_system_snapshot(&self) -> (r: bool)
        ensures
            r == (self.spec_selects(Category::Cpu) || self.spec_selects(Category::Process)
                || self.spec_selects(Category::Memory)),
    {
        self.cpu || self.process || self.memory
    }
}

} // verus!
