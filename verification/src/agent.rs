use vstd::prelude::*;
use crate::vector::{RealBits, Vec3Bits};
use crate::controller::boid_controller::BoidsController;
use crate::controller::motion_controller::MotionController;

verus! {

/// Kinematic state of an agent.
#[derive(Clone, Copy, Debug, PartialEq, Eq, Structural)]
pub struct State {
    pub position: Vec3Bits,
    pub velocity: Vec3Bits,
}

impl State {
    /// At rest at the origin.
    pub open spec fn spec_zero() -> State {
        State { position: Vec3Bits::spec_zero(), velocity: Vec3Bits::spec_zero() }
    }

    pub fn new(position: Vec3Bits, velocity: Vec3Bits) -> (s: State)
        ensures
            s == (State { position, velocity }),
    {
        State { position, velocity }
    }
}

impl Default for State {
    fn default() -> (s: State)
        ensures
            s == State::spec_zero(),
    {
        State { position: Vec3Bits::zero(), velocity: Vec3Bits::zero() }
    }
}

/// Collision shape of an agent.
#[derive(Clone, Copy, Debug, PartialEq, Eq, Structural)]
pub enum AgentShape {
    Ball { radius: RealBits },
    Cuboid { half_extents: Vec3Bits },
}

/// Physical model of an agent.
#[derive(Clone, Copy, Debug, PartialEq, Eq, Structural)]
pub struct AgentModel {
    pub shape: AgentShape,
    pub mass: RealBits,
    pub friction: RealBits,
    pub restitution: RealBits,
}

impl AgentModel {
    /// A ball of radius `0.2` and mass `0.2`, frictionless, restitution `0.1`.
    pub open spec fn spec_default_ball() -> AgentModel {
        AgentModel {
            shape: AgentShape::Ball { radius: 0x3e4c_cccdu32 },
            mass: 0x3e4c_cccdu32,
            friction: 0u32,
            restitution: 0x3dcc_cccdu32,
        }
    }

    /// Half the vertical extent of the shape: the radius of a ball, the `y`
    /// half-extent of a box.
    pub fn half_heigh(&self) -> (h: RealBits)
        ensures
            h == match self.shape {
                AgentShape::Ball { radius } => radius,
                AgentShape::Cuboid { half_extents } => half_extents.y,
            },
    {
        match self.shape {
            AgentShape::Ball { radius } => radius,
            AgentShape::Cuboid { half_extents } => half_extents.y,
        }
    }
}

/// One member of the swarm.
#[derive(Clone, Copy, Debug, PartialEq, Eq, Structural)]
pub struct Agent {
    pub id: usize,
    pub state: State,
    pub model: AgentModel,
    pub motion_controller: MotionController,
    pub boid_controller: BoidsController,
}

impl Agent {
    /// A fresh agent: at rest at the origin, the default ball model and
    /// default regulators.
    pub open spec fn spec_new(id: usize) -> Agent {
        Agent {
            id,
            state: State::spec_zero(),
            model: AgentModel::spec_default_ball(),
            motion_controller: MotionController::spec_default(),
            boid_controller: BoidsController::spec_default(),
        }
    }

    /// The agent with the memory of its motion regulators cleared; its
    /// flocking regulator holds no memory and stays as it is.
    pub open spec fn spec_reset(self) -> Agent {
        Agent { motion_controller: self.motion_controller.spec_reset(), ..self }
    }

    pub fn new(id: usize) -> (a: Agent)
        ensures
            a == Agent::spec_new(id),
    {
        Agent {
            id,
            state: State::default(),
            motion_controller: MotionController::default(),
            boid_controller: BoidsController::default(),
            model: AgentModel {
                shape: AgentShape::Ball { radius: 0x3e4c_cccdu32 },
                mass: 0x3e4c_cccdu32,
                friction: 0u32,
                restitution: 0x3dcc_cccdu32,
            },
        }
    }

    pub fn get_status(&self) -> (s: &'static str)
        ensures
            s@ == "Hello"@,
    {
        "Hello"
    }

    /// Clears the memory of the agent's regulators.
    pub fn reset(&mut self)
        ensures
            *final(self) == old(self).spec_reset(),
            final(self).motion_controller.is_reset(),
            final(self).id == old(self).id,
            final(self).state == old(self).state,
            final(self).model == old(self).model,
            final(self).boid_controller == old(self).boid_controller,
            final(self).motion_controller.speed_controller.kp == old(self).motion_controller.speed_controller.kp,
            final(self).motion_controller.speed_controller.ki == old(self).motion_controller.speed_controller.ki,
            final(self).motion_controller.speed_controller.kd == old(self).motion_controller.speed_controller.kd,
            final(self).motion_controller.position_controller.kp == old(self).motion_controller.position_controller.kp,
            final(self).motion_controller.position_controller.ki == old(self).motion_controller.position_controller.ki,
            final(self).motion_controller.position_controller.kd == old(self).motion_controller.position_controller.kd,
    {
        self.motion_controller.reset();
    }
}

impl Default for Agent {
    fn default() -> (a: Agent)
        ensures
            a == Agent::spec_new(0),
    {
        Agent::new(0)
    }
}

} // verus!
