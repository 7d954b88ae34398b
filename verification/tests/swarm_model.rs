use flowngin::agent::{Agent, AgentModel, AgentShape, State};
use flowngin::controller::boid_controller::BoidsController;
use flowngin::controller::motion_controller::MotionController;
use flowngin::controller::pid_controller::PidController;
use flowngin::environment::Environment;
use flowngin::swarm::Swarm;
use flowngin::vector::Vec3Bits;

fn at(x: f32, y: f32, z: f32) -> Vec3Bits {
    Vec3Bits::new(x.to_bits(), y.to_bits(), z.to_bits())
}

fn state(x: f32) -> State {
    State::new(at(x, 0.0, 0.0), at(0.0, 0.0, 1.0))
}

#[test]
fn default_state_is_at_rest() {
    let s = State::default();
    assert_eq!(s.position, Vec3Bits::zero());
    assert_eq!(s.velocity, Vec3Bits::zero());
    assert_eq!(f32::from_bits(s.position.x), 0.0);
}

#[test]
fn new_agent_defaults() {
    let a = Agent::new(7);
    assert_eq!(a.id, 7);
    assert_eq!(a.state, State::default());
    assert_eq!(a.model.shape, AgentShape::Ball { radius: 0.2f32.to_bits() });
    assert_eq!(f32::from_bits(a.model.mass), 0.2);
    assert_eq!(f32::from_bits(a.model.friction), 0.0);
    assert_eq!(f32::from_bits(a.model.restitution), 0.1);
    assert_eq!(a.get_status(), "Hello");
    assert_eq!(Agent::default().id, 0);
}

#[test]
fn half_height_of_shapes() {
    let ball = AgentModel {
        shape: AgentShape::Ball { radius: 0.5f32.to_bits() },
        mass: 0,
        friction: 0,
        restitution: 0,
    };
    assert_eq!(f32::from_bits(ball.half_heigh()), 0.5);
    let cuboid = AgentModel {
        shape: AgentShape::Cuboid { half_extents: at(1.0, 2.0, 3.0) },
        mass: 0,
        friction: 0,
        restitution: 0,
    };
    assert_eq!(f32::from_bits(cuboid.half_heigh()), 2.0);
}

#[test]
fn boids_defaults_and_radius() {
    let b = BoidsController::default();
    assert_eq!(f32::from_bits(b.interaction_radius), 6.0);
    assert_eq!(f32::from_bits(b.desired_distance), 3.0);
    assert_eq!(f32::from_bits(b.formation_gain), 1.0);
    assert_eq!(f32::from_bits(b.alignment_gain), 0.5);
    assert_eq!(f32::from_bits(b.max_force), 5.0);
    let c = BoidsController::new(2.5f32.to_bits());
    assert_eq!(f32::from_bits(c.interaction_radius), 2.5);
    assert_eq!(c.max_force, b.max_force);
}

#[test]
fn motion_controller_reset_clears_memory_keeps_gains() {
    let mut m = MotionController::default();
    m.position_controller.integral = at(1.0, 2.0, 3.0);
    m.position_controller.previous_error = Some(at(1.0, 1.0, 1.0));
    m.speed_controller.integral = at(4.0, 5.0, 6.0);
    m.speed_controller.kp = at(2.0, 2.0, 2.0);
    m.reset();
    assert_eq!(m.position_controller.integral, Vec3Bits::zero());
    assert_eq!(m.position_controller.previous_error, None);
    assert_eq!(m.speed_controller.integral, Vec3Bits::zero());
    assert_eq!(m.speed_controller.kp, at(2.0, 2.0, 2.0));
    let once = m;
    m.reset();
    assert_eq!(m, once);
    assert_eq!(PidController::default().kp, at(1.0, 1.0, 1.0));
}

#[test]
fn environment_storage() {
    let mut env = Environment::new(3);
    assert_eq!(env.agent_count(), 3);
    assert_eq!(env.state(2), Some(&State::default()));
    assert_eq!(env.state(3), None);
    env.set_states(vec![state(1.0), state(2.0)]);
    assert_eq!(env.agent_count(), 2);
    assert_eq!(env.state(1), Some(&state(2.0)));
    env.update_from_states(&[state(5.0)]);
    assert_eq!(env.states(), &[state(5.0)]);
    assert_eq!(Environment::default().agent_count(), 0);
}

#[test]
fn neighbors_skip_self_and_out_of_range() {
    let mut env = Environment::new(0);
    env.set_states(vec![state(0.0), state(1.0), state(2.0), state(3.0)]);
    let n = env.neighbors(&vec![true, true, false, true], 1);
    let ids: Vec<usize> = n.iter().map(|(i, _)| *i).collect();
    assert_eq!(ids, vec![0, 3]);
    assert_eq!(*n[1].1, state(3.0));
    assert!(env.neighbors(&vec![false, true, false, false], 1).is_empty());
}

#[test]
fn swarm_new_and_sync() {
    let mut swarm = Swarm::new(5);
    assert_eq!(swarm.agent_count(), 5);
    assert_eq!(swarm.environment.agent_count(), 5);
    for (i, a) in swarm.agents.iter().enumerate() {
        assert_eq!(a.id, i);
    }
    swarm.agents[3].state = state(4.0);
    swarm.update_environment();
    assert_eq!(swarm.environment.state(3), Some(&state(4.0)));
    assert_eq!(swarm.environment.state(0), Some(&State::default()));
}

#[test]
fn swarm_reset_clears_regulators_only() {
    let mut swarm = Swarm::new(2);
    swarm.agents[1].state = state(9.0);
    swarm.agents[1].motion_controller.speed_controller.integral = at(1.0, 1.0, 1.0);
    swarm.agents[0].motion_controller.position_controller.previous_error = Some(at(1.0, 0.0, 0.0));
    swarm.reset();
    assert_eq!(swarm.agents[1].motion_controller.speed_controller.integral, Vec3Bits::zero());
    assert_eq!(swarm.agents[0].motion_controller.position_controller.previous_error, None);
    assert_eq!(swarm.agents[1].state, state(9.0));
    assert_eq!(swarm.agents[1].id, 1);
}
