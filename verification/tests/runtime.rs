use multi_agent_rl::Agent;
use multi_agent_rl::SimConfig;
use multi_agent_rl::Transition;
use multi_agent_rl::TransitionBus;
use multi_agent_rl::run;
use rand::SeedableRng;

fn sim_cfg(num_agents: usize, num_episodes: usize, bus_capacity: usize) -> SimConfig {
    SimConfig {
        num_states: 100,
        num_actions: 4,
        num_agents,
        num_episodes,
        bus_capacity,
        alpha_num: 1,
        alpha_den: 10,
        gamma_num: 9,
        gamma_den: 10,
        epsilon_num: 1,
        epsilon_den: 10,
        scale: 1000,
        q_bound: 1_000_000,
    }
}

fn t(agent_id: usize, tag: usize) -> Transition {
    Transition { agent_id, resulting_state: tag, reward: 0, next_state: tag }
}

#[test]
fn bus_delivers_in_fifo_order() {
    let mut bus = TransitionBus::new(10);
    let sent = vec![t(0, 1), t(1, 100), t(0, 2), t(1, 200), t(0, 3)];
    for m in sent.iter() {
        assert!(bus.send(*m));
    }
    let mut received = Vec::new();
    while let Some(m) = bus.try_receive() {
        received.push(m);
    }
    assert_eq!(received, sent);
    // Per-agent relative order: agent 0's messages come out 1, 2, 3, and
    // agent 1's 100, 200, however the two streams were interleaved.
    let zeros: Vec<usize> =
        received.iter().filter(|m| m.agent_id == 0).map(|m| m.resulting_state).collect();
    let ones: Vec<usize> =
        received.iter().filter(|m| m.agent_id == 1).map(|m| m.resulting_state).collect();
    assert_eq!(zeros, vec![1, 2, 3]);
    assert_eq!(ones, vec![100, 200]);
}

#[test]
fn bus_applies_backpressure_when_full() {
    let mut bus = TransitionBus::new(1);
    assert!(bus.send(t(0, 1)));
    assert_eq!(bus.len(), 1);
    // A full bus refuses the message and keeps its content unchanged.
    assert!(!bus.send(t(0, 2)));
    assert_eq!(bus.len(), 1);
    assert_eq!(bus.try_receive(), Some(t(0, 1)));
    assert!(bus.send(t(0, 2)));
    assert_eq!(bus.try_receive(), Some(t(0, 2)));
}

#[test]
fn bus_try_receive_is_nonblocking_on_empty() {
    let mut bus = TransitionBus::new(3);
    assert_eq!(bus.try_receive(), None);
    assert_eq!(bus.len(), 0);
}

#[test]
fn two_agents_learn_in_isolation() {
    // Running two agents for the same episode budget gives each agent
    // exactly the table it gets when it runs alone with its own seed:
    // neither table reflects the other agent's updates.
    let cfg_pair = sim_cfg(2, 50, 4);
    assert!(cfg_pair.validate().is_ok());
    let (pair, _) = run(cfg_pair, &vec![7, 8]);
    assert_eq!(pair.len(), 2);

    let cfg_solo = sim_cfg(1, 50, 4);
    let (solo_a, _) = run(cfg_solo, &vec![7]);
    let (solo_b, _) = run(cfg_solo, &vec![8]);

    for s in 0..cfg_pair.num_states {
        for a in 0..cfg_pair.num_actions {
            assert_eq!(pair[0].q_value(s, a), solo_a[0].q_value(s, a));
            assert_eq!(pair[1].q_value(s, a), solo_b[0].q_value(s, a));
        }
    }
}

#[test]
fn worker_run_drains_the_bus() {
    let cfg = sim_cfg(1, 20, 1);
    let mut agent = Agent::new(0, cfg);
    let mut bus = TransitionBus::new(cfg.bus_capacity);
    let mut rng = rand::rngs::StdRng::seed_from_u64(3);
    agent.run(&mut bus, &mut rng);
    assert_eq!(bus.len(), 0);
    assert_eq!(bus.try_receive(), None);
}

#[test]
fn forced_single_state_rewards_every_step() {
    // With one state and one action the whole run is forced: every step
    // stays in state 0, which is the rewarded last state, so the estimate
    // must move off zero after the first episode.
    let mut cfg = sim_cfg(1, 10, 1);
    cfg.num_states = 1;
    cfg.num_actions = 1;
    cfg.epsilon_num = 0;
    assert!(cfg.validate().is_ok());
    let mut agent = Agent::new(0, cfg);
    let mut bus = TransitionBus::new(cfg.bus_capacity);
    let mut rng = rand::rngs::StdRng::seed_from_u64(5);
    agent.run(&mut bus, &mut rng);
    assert!(agent.q_value(0, 0) > 0);
}

#[test]
fn scheduler_completes_ten_agents_thousand_episodes() {
    let cfg = sim_cfg(10, 1000, 1);
    assert!(cfg.validate().is_ok());
    let seeds: Vec<u64> = (0..10u64).collect();
    let (agents, _) = run(cfg, &seeds);
    assert_eq!(agents.len(), 10);
    for (i, agent) in agents.iter().enumerate() {
        assert_eq!(agent.id, i);
        // Every estimate stayed within the proved bound.
        for s in 0..cfg.num_states {
            for a in 0..cfg.num_actions {
                assert!(agent.q_value(s, a) <= cfg.q_bound);
            }
        }
    }
}
