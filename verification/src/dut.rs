//! Clocking of a simulated design under test.
//!
//! A model of a hardware block is driven by setting the clock input,
//! evaluating the combinational logic, dumping its signals to a trace and
//! advancing the simulation time. Implementations keep, as ghost state, the
//! sequence of these actions, so that the clocking protocol of `tick` can be
//! stated exactly. (The harness trait `DUT` dumps its trace through a shared
//! reference, which cannot change that state; its dumps are not recorded.)
use vstd::prelude::*;

verus! {

/// One action on a simulated design.
#[derive(Clone, Copy, Debug, PartialEq, Eq, Structural)]
pub enum DutStep {
    SetClk(u8),
    Eval,
    TraceDump,
    Timestep,
}

/// A design with combinational logic only.
pub trait DutComb {
    /// The actions on the design so far, which an implementation defines
    /// from its own ghost state.
    spec fn steps(&self) -> Seq<DutStep>;

    /// Evaluates the combinational logic.
    fn eval(&mut self)
        ensures
            final(self).steps() == old(self).steps().push(DutStep::Eval),
    ;
}

/// A clocked design.
pub trait DutSync: DutComb {
    fn trace_init(&mut self, filename: &str);

    /// Writes the current signal values to the trace, if one is open.
    fn trace_dump(&mut self)
        ensures
            final(self).steps() == old(self).steps().push(DutStep::TraceDump),
    ;

    fn trace_close(&mut self);

    /// Drives the clock input to `val`.
    fn set_clk(&mut self, val: u8)
        ensures
            final(self).steps() == old(self).steps().push(DutStep::SetClk(val)),
    ;

    fn reset(&mut self);

    /// Advances the simulation time by half a clock period.
    fn timestep(&mut self)
        ensures
            final(self).steps() == old(self).steps().push(DutStep::Timestep),
    ;

    /// One clock cycle: a falling edge, then a rising edge, each evaluated,
    /// dumped to the trace and followed by a time step.
    fn tick(&mut self)
        ensures
            final(self).steps() == old(self).steps() + seq![
                DutStep::SetClk(0),
                DutStep::Eval,
                DutStep::TraceDump,
                DutStep::Timestep,
                DutStep::SetClk(1),
                DutStep::Eval,
                DutStep::TraceDump,
                DutStep::Timestep,
            ],
    {
        // Falling edge
        self.set_clk(0);
        self.eval();
        self.trace_dump();
        self.timestep();

        // Rising edge
        self.set_clk(1);
        self.eval();
        self.trace_dump();
        self.timestep();
    }
}

/// A design driven by the unit-test harness.
pub trait DUT {
    /// The actions on the design so far, which an implementation defines
    /// from its own ghost state.
    spec fn steps(&self) -> Seq<DutStep>;

    /// Drives the clock input to `val`.
    fn set_clk(&mut self, val: u8)
        ensures
            final(self).steps() == old(self).steps().push(DutStep::SetClk(val)),
    ;

    fn reset(&mut self);

    /// Evaluates the design.
    fn eval(&mut self)
        ensures
            final(self).steps() == old(self).steps().push(DutStep::Eval),
    ;

    /// Advances the simulation time by half a clock period.
    fn timestep(&mut self)
        ensures
            final(self).steps() == old(self).steps().push(DutStep::Timestep),
    ;

    /// Writes the current signal values to the trace.
    fn dump_trace(&self);

    /// One clock cycle: settle the inputs, then a falling edge and a rising
    /// edge, each evaluated and followed by a time step.
    fn tick(&mut self)
        ensures
            final(self).steps() == old(self).steps() + seq![
                DutStep::Eval,
                DutStep::SetClk(0),
                DutStep::Eval,
                DutStep::Timestep,
                DutStep::SetClk(1),
                DutStep::Eval,
                DutStep::Timestep,
            ],
    {
        self.eval();
        self.dump_trace();
        // Falling edge
        self.set_clk(0);
        self.eval();
        self.timestep();
        self.dump_trace();

        // Rising edge
        self.set_clk(1);
        self.eval();
        self.timestep();
    }
}

} // verus!
