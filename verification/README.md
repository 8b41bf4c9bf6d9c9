# pc_rl_continuos

Predictive-coding actor-critic agents for continuous control, written in Verus.

The actor deliberates before it acts: it relaxes its hidden states against
top-down predictions until the remaining error is small. A continuous agent
learns by soft actor-critic from memory, with twin action-value critics, slowly
following copies of them and a tuned entropy temperature.

Numbers are carried by their bit pattern. Order, signs, clamping and finiteness
are decided exactly; how sums, products and elementary functions are rounded is
left to a number system (`arith::Arith`), and every contract is stated over it.

- `src/scalar.rs`, `arith.rs`, `coarse.rs`: numbers and number systems.
- `src/linalg.rs`, `matrix.rs`, `cpu.rs`: vectors, matrices and the host backend.
- `src/layer.rs`, `stack.rs`, `mixing.rs`: dense layers, stacks of them, averages.
- `src/pc_model.rs`, `pc_rest.rs`, `pc_topology.rs`, `pc_actor.rs`: the actor's
  mathematics, its shape and its code.
- `src/mlp_critic.rs`, `q_critic.rs`: the critics.
- `src/pc_actor_critic/`: configuration, memory, policy, learning and stepping.
- `src/serializer.rs`, `save_file.rs`, `naming.rs`: saving and loading.
- `app/`: double-precision arithmetic, JSON files and error messages.
