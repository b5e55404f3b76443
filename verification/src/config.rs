use vstd::prelude::*;

use crate::errors::ConfigError;

verus! {

/// The static configuration record the walk-forward driver consumes.  It
/// is constructed once at startup from whatever source the surrounding
/// program uses and passed by reference from then on: the engine holds no
/// process-wide state.
pub struct ConfigurationFile {
    /// Where the tick data lives; only the surrounding program reads it.
    pub csv_path: Vec<u8>,
    /// The chart specification string.
    pub charts: Vec<u8>,
    /// The variable specification string.
    pub variables: Vec<u8>,
    /// The in-sample window length, e.g. `2 weeks`.
    pub in_sample: Vec<u8>,
    /// The out-of-sample window length.
    pub out_of_sample: Vec<u8>,
    /// Optimizer trials per step.
    pub iterations: i64,
    /// Walk-forward steps to run.
    pub steps: i64,
    /// Whether the quote currency is quoted to 3 decimals.
    pub jpy_base: bool,
    /// An optional command the surrounding program runs afterwards.
    pub post_run_script: Vec<u8>,
}

impl ConfigurationFile {
    pub open spec fn wf(self) -> bool {
        self.steps >= 1
    }

    /// Assembles a configuration; a step count below one is refused.
    pub fn new(
        csv_path: Vec<u8>,
        charts: Vec<u8>,
        variables: Vec<u8>,
        in_sample: Vec<u8>,
        out_of_sample: Vec<u8>,
        iterations: i64,
        steps: i64,
        post_run_script: Vec<u8>,
    ) -> (r: Result<ConfigurationFile, ConfigError>)
        ensures
            r is Ok <==> steps >= 1,
            r is Err ==> r->Err_0 == ConfigError::BadStepCount,
            r is Ok ==> {
                let c = r->Ok_0;
                &&& c.wf()
                &&& c.csv_path@ == csv_path@
                &&& c.charts@ == charts@
                &&& c.variables@ == variables@
                &&& c.in_sample@ == in_sample@
                &&& c.out_of_sample@ == out_of_sample@
                &&& c.iterations == iterations
                &&& c.steps == steps
                &&& c.jpy_base == false
                &&& c.post_run_script@ == post_run_script@
            },
    {
        if steps < 1 {
            return Err(ConfigError::BadStepCount);
        }
        Ok(ConfigurationFile {
            csv_path,
            charts,
            variables,
            in_sample,
            out_of_sample,
            iterations,
            steps,
            jpy_base: false,
            post_run_script,
        })
    }

    /// Marks the data as quoted to 3 decimals, set once after the first
    /// data line has been inspected.
    pub fn set_jpy_base(&mut self)
        ensures
            final(self).jpy_base == true,
            final(self).csv_path@ == old(self).csv_path@,
            final(self).charts@ == old(self).charts@,
            final(self).variables@ == old(self).variables@,
            final(self).in_sample@ == old(self).in_sample@,
            final(self).out_of_sample@ == old(self).out_of_sample@,
            final(self).iterations == old(self).iterations,
            final(self).steps == old(self).steps,
            final(self).post_run_script@ == old(self).post_run_script@,
    {
        self.jpy_base = true;
    }
}

} // verus!
