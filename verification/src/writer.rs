//! The output accumulator: collects generated assembly text in instruction
//! order. It never touches the file system; the caller persists the final
//! buffer as one unit, so a failed run leaves no output artifact.
use vstd::prelude::*;

use crate::Config;

verus! {

#[derive(Debug)]
pub struct CodeWriter {
    pub output_file: String,
    pub assembly_code: String,
}

impl CodeWriter {
    pub fn new(config: &Config) -> (w: CodeWriter)
        ensures
            w.output_file@ == config.output_file@,
            w.assembly_code@ == Seq::<char>::empty(),
    {
        CodeWriter { output_file: config.output_file.clone(), assembly_code: String::new() }
    }

    /// Appends one generated fragment to the buffer.
    pub fn add_assembly_code(&mut self, code: &str) -> (r: Result<(), String>)
        ensures
            final(self).output_file == old(self).output_file,
            final(self).assembly_code@ == old(self).assembly_code@ + code@,
            r is Ok,
    {
        self.assembly_code.append(code);
        Ok(())
    }

    /// The accumulated assembly text.
    pub fn assembly(&self) -> (r: &String)
        ensures
            r@ == self.assembly_code@,
    {
        &self.assembly_code
    }
}

} // verus!
