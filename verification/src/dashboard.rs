//! The dashboard page.

use vstd::prelude::*;

verus! {

/// The page that shows live telemetry and the forensic log.
pub const DASHBOARD_HTML: &'static str = r#"<!DOCTYPE html>
<html lang="en">
<head>
    <meta charset="UTF-8">
    <meta name="viewport" content="width=device-width, initial-scale=1.0">
    <title>R-NADS // Real-Time Threat Intelligence Dashboard</title>
    <link href="https://fonts.googleapis.com/css2?family=Outfit:wght@300;400;600;700&family=JetBrains+Mono:wght@400;700&display=swap" rel="stylesheet">
    <script src="https://cdn.tailwindcss.com"></script>
    <script src="https://cdn.plot.ly/plotly-2.24.1.min.js"></script>
    <style>
        body {
            font-family: 'Outfit', sans-serif;
            background: radial-gradient(circle at top, #141523 0%, #090a10 100%);
            color: #e2e8f0;
        }
        .code-font {
            font-family: 'JetBrains Mono', monospace;
        }
        .glass-panel {
            background: rgba(22, 23, 38, 0.6);
            backdrop-filter: blur(12px);
            border: 1px solid rgba(255, 255, 255, 0.05);
            box-shadow: 0 8px 32px 0 rgba(0, 0, 0, 0.4);
        }
        .glow-green {
            box-shadow: 0 0 20px rgba(34, 197, 94, 0.2);
            border-color: rgba(34, 197, 94, 0.4);
        }
        .glow-red {
            box-shadow: 0 0 20px rgba(239, 68, 68, 0.2);
            border-color: rgba(239, 68, 68, 0.4);
        }
        /* Custom scrollbar */
        ::-webkit-scrollbar {
            width: 6px;
        }
        ::-webkit-scrollbar-track {
            background: rgba(22, 23, 38, 0.3);
        }
        ::-webkit-scrollbar-thumb {
            background: rgba(255, 255, 255, 0.1);
            border-radius: 4px;
        }
        ::-webkit-scrollbar-thumb:hover {
            background: rgba(255, 255, 255, 0.2);
        }
    </style>
</head>
<body class="min-h-screen p-4 md:p-6 overflow-x-hidden">

    <!-- Header -->
    <header class="flex flex-col md:flex-row justify-between items-center mb-6 pb-4 border-b border-gray-800 gap-4">
        <div>
            <h1 class="text-2xl font-bold tracking-wider text-transparent bg-clip-text bg-gradient-to-r from-red-500 via-purple-400 to-indigo-400">
                R-NADS // THREAT INTELLIGENCE
            </h1>
            <p class="text-xs text-gray-500 uppercase tracking-widest mt-0.5">Real-time SVDD Hypersphere Security Operations Center</p>
        </div>
        <div class="flex items-center gap-4">
            <div id="status-badge" class="flex items-center gap-2 px-3 py-1.5 rounded-full text-xs font-semibold uppercase tracking-wider glass-panel glow-green">
                <span class="relative flex h-2 w-2">
                    <span class="animate-ping absolute inline-flex h-full w-full rounded-full bg-green-400 opacity-75"></span>
                    <span class="relative inline-flex rounded-full h-2 w-2 bg-green-500"></span>
                </span>
                <span id="mitigation-mode-text">MONITOR MODE</span>
            </div>
            <div class="text-xs text-gray-500 code-font" id="clock">00:00:00 UTC</div>
        </div>
    </header>

    <!-- Main Grid -->
    <main class="grid grid-cols-1 lg:grid-cols-3 gap-6">

        <!-- Left Metrics and Charts -->
        <section class="lg:col-span-2 space-y-6">
            <!-- Telemetry Stats Row -->
            <div class="grid grid-cols-1 sm:grid-cols-3 gap-4">
                <div class="glass-panel rounded-xl p-4 flex flex-col justify-between h-28 relative overflow-hidden group">
                    <div class="text-xs text-gray-500 font-semibold tracking-wider uppercase">Traffic Throughput</div>
                    <div class="text-3xl font-bold tracking-tight text-white mt-2 code-font" id="throughput-text">0.0 <span class="text-sm font-normal text-gray-400">pps</span></div>
                    <div class="text-xs text-gray-500 mt-2" id="packet-count-text">Total: 0 packets</div>
                </div>

                <div class="glass-panel rounded-xl p-4 flex flex-col justify-between h-28 relative overflow-hidden group">
                    <div class="text-xs text-gray-500 font-semibold tracking-wider uppercase">Average Latency</div>
                    <div class="text-3xl font-bold tracking-tight text-white mt-2 code-font" id="latency-text">0.00 <span class="text-sm font-normal text-gray-400">µs</span></div>
                    <div class="text-xs text-emerald-400 mt-2 flex items-center gap-1">
                        <span class="inline-block h-1.5 w-1.5 rounded-full bg-emerald-400 animate-pulse"></span>
                        Zero-Allocation Routing Path
                    </div>
                </div>

                <div class="glass-panel rounded-xl p-4 flex flex-col justify-between h-28 relative overflow-hidden group" id="blocked-card">
                    <div class="text-xs text-gray-500 font-semibold tracking-wider uppercase">Active Blocked IPs</div>
                    <div class="text-3xl font-bold tracking-tight text-red-500 mt-2 code-font" id="blocked-count-text">0</div>
                    <div class="text-xs text-gray-500 mt-2" id="ttl-text">Default TTL: 30s</div>
                </div>
            </div>

            <!-- 3D Visualization Map -->
            <div class="glass-panel rounded-xl p-4">
                <div class="flex justify-between items-center mb-4">
                    <h2 class="text-sm font-semibold uppercase tracking-wider text-gray-400">3D SVDD Feature Projection Map</h2>
                    <span class="text-[10px] text-gray-500 code-font">Axes: Packet Rate (X) | Byte Rate (Y) | Average Size (Z)</span>
                </div>
                <div id="chart-3d" class="w-full h-[450px] bg-transparent rounded-lg"></div>
            </div>
        </section>

        <!-- Right Side Sidebar (Blocked IPs & Historical Detections) -->
        <section class="space-y-6">
            <!-- Active Block List -->
            <div class="glass-panel rounded-xl p-4 flex flex-col h-[280px]">
                <div class="flex justify-between items-center mb-3 pb-2 border-b border-gray-800">
                    <h2 class="text-sm font-semibold uppercase tracking-wider text-gray-400 flex items-center gap-2">
                        <svg class="h-4 w-4 text-red-500" fill="none" viewBox="0 0 24 24" stroke="currentColor"><path stroke-linecap="round" stroke-linejoin="round" stroke-width="2" d="M12 15v2m0 0v3m0-3h3m-3 0H9m12-3a9 9 0 11-18 0 9 9 0 0118 0z" /></svg>
                        Mitigated Host Registry
                    </h2>
                    <span class="text-xs code-font text-red-400" id="blocklist-count-badge">0 IP(s)</span>
                </div>
                <div class="overflow-y-auto flex-grow" id="blocklist-container">
                    <table class="w-full text-left text-xs code-font">
                        <thead>
                            <tr class="text-gray-500 border-b border-gray-800">
                                <th class="pb-2 font-normal">Source IP</th>
                                <th class="pb-2 text-right font-normal">Unblocks In</th>
                            </tr>
                        </thead>
                        <tbody id="blocklist-tbody" class="divide-y divide-gray-800">
                            <!-- Injected dynamically -->
                        </tbody>
                    </table>
                    <div id="no-blocked-msg" class="text-center py-10 text-gray-600 text-xs italic">
                        No active mitigated host addresses.
                    </div>
                </div>
            </div>

            <!-- Real-Time Alerts Logs -->
            <div class="glass-panel rounded-xl p-4 flex flex-col h-[328px]">
                <div class="flex justify-between items-center mb-3 pb-2 border-b border-gray-800">
                    <h2 class="text-sm font-semibold uppercase tracking-wider text-gray-400">
                        Forensic Anomaly Log Feed
                    </h2>
                    <span class="h-2 w-2 rounded-full bg-red-500 animate-ping"></span>
                </div>
                <div class="overflow-y-auto flex-grow text-xs code-font space-y-2.5" id="anomaly-log-feed">
                    <!-- Injected dynamically -->
                </div>
            </div>
        </section>

    </main>

    <script>
        // System Config and Stats Global Object
        let latestAnomalies = [];
        let systemStats = { block_list_ttl: 30 };

        // Keep local clock running
        setInterval(() => {
            const now = new Date();
            document.getElementById('clock').innerText = now.toUTCString();
        }, 1000);

        // Fetch Live Stats from /api/stats
        async function fetchStats() {
            try {
                const res = await fetch('/api/stats');
                if (!res.ok) return;
                const stats = await res.json();
                systemStats = stats;

                // Update UI elements
                document.getElementById('throughput-text').innerHTML = `${stats.throughput_pps.toFixed(1)} <span class="text-sm font-normal text-gray-400">pps</span>`;
                document.getElementById('packet-count-text').innerText = `Total: ${stats.total_packets.toLocaleString()} packets`;
                document.getElementById('latency-text').innerHTML = `${stats.avg_latency_us.toFixed(2)} <span class="text-sm font-normal text-gray-400">µs</span>`;
                document.getElementById('blocked-count-text').innerText = stats.blocked_ips_count;
                document.getElementById('blocklist-count-badge').innerText = `${stats.blocked_ips_count} IP(s)`;
                document.getElementById('ttl-text').innerText = `Default TTL: ${stats.block_list_ttl}s`;

                const badge = document.getElementById('status-badge');
                const badgeText = document.getElementById('mitigation-mode-text');
                const card = document.getElementById('blocked-card');

                if (stats.mitigation_mode === 'mitigate') {
                    badgeText.innerText = 'MITIGATION ACTIVE';
                    badge.className = 'flex items-center gap-2 px-3 py-1.5 rounded-full text-xs font-semibold uppercase tracking-wider glass-panel glow-red';
                    card.className = 'glass-panel rounded-xl p-4 flex flex-col justify-between h-28 relative overflow-hidden group border border-red-500/20';
                } else {
                    badgeText.innerText = 'MONITORING MODE';
                    badge.className = 'flex items-center gap-2 px-3 py-1.5 rounded-full text-xs font-semibold uppercase tracking-wider glass-panel glow-green';
                    card.className = 'glass-panel rounded-xl p-4 flex flex-col justify-between h-28 relative overflow-hidden group';
                }

                // Render Blocklist Registry
                const tbody = document.getElementById('blocklist-tbody');
                tbody.innerHTML = '';
                if (stats.blocked_ips && stats.blocked_ips.length > 0) {
                    document.getElementById('no-blocked-msg').classList.add('hidden');
                    stats.blocked_ips.forEach(item => {
                        const tr = document.createElement('tr');
                        tr.className = 'hover:bg-white/5 transition-colors';
                        tr.innerHTML = `
                            <td class="py-2.5 text-red-400 font-bold">${item.ip}</td>
                            <td class="py-2.5 text-right text-gray-400">${item.remaining_seconds}s</td>
                        `;
                        tbody.appendChild(tr);
                    });
                } else {
                    document.getElementById('no-blocked-msg').classList.remove('hidden');
                }

            } catch (err) {
                console.error("Failed to fetch system stats:", err);
            }
        }

        // Fetch Historical Anomalies from /api/anomalies
        async function fetchAnomalies() {
            try {
                const res = await fetch('/api/anomalies');
                if (!res.ok) return;
                const data = await res.json();
                latestAnomalies = data;

                // Render Anomaly Log Feed (last 5 anomalies)
                const feed = document.getElementById('anomaly-log-feed');
                feed.innerHTML = '';
                if (data.length > 0) {
                    data.slice(0, 10).forEach(anom => {
                        const div = document.createElement('div');
                        div.className = 'p-2.5 rounded-lg bg-red-500/5 border border-red-500/10 space-y-1 relative';
                        const timeStr = new Date(anom.timestamp * 1000).toISOString().split('T')[1].substring(0, 8);
                        div.innerHTML = `
                            <div class="flex justify-between items-center">
                                <span class="text-red-400 font-bold">ALERT // ANOMALY</span>
                                <span class="text-[10px] text-gray-500">${timeStr}</span>
                            </div>
                            <div class="text-xs text-gray-300">${anom.src_ip} &rarr; ${anom.dest_ip}</div>
                            <div class="grid grid-cols-3 text-[10px] text-gray-500 pt-1">
                                <div>Score: ${anom.score.toFixed(3)}</div>
                                <div>Pkts: ${anom.packet_rate.toFixed(0)}/s</div>
                                <div>SYN: ${anom.syn_ratio.toFixed(2)}</div>
                            </div>
                        `;
                        feed.appendChild(div);
                    });
                } else {
                    feed.innerHTML = '<div class="text-center py-10 text-gray-600 italic">No historical anomaly logs.</div>';
                }

                // Redraw 3D scatter plot with fresh data
                drawPlot();

            } catch (err) {
                console.error("Failed to fetch anomalies:", err);
            }
        }

        // Render 3D Chart
        function drawPlot() {
            const hasData = latestAnomalies && latestAnomalies.length > 0;

            // Generate representative normal points based on our default baselines
            const numNormals = 120;
            const normX = [];
            const normY = [];
            const normZ = [];
            for (let i = 0; i < numNormals; i++) {
                // Normal traffic has low packet rate, small size, and random jitter
                normX.push(10 + Math.random() * 50);  // Packets/sec
                normY.push(1000 + Math.random() * 15000); // Bytes/sec
                normZ.push(64 + Math.random() * 250);  // Mean packet size
            }

            // Extract anomaly coordinates
            const anomX = [];
            const anomY = [];
            const anomZ = [];
            if (hasData) {
                latestAnomalies.forEach(a => {
                    anomX.push(a.packet_rate);
                    anomY.push(a.byte_rate);
                    anomZ.push(a.mean_len);
                });
            }

            // Plotly data traces
            const traceNormal = {
                x: normX, y: normY, z: normZ,
                mode: 'markers',
                name: 'Baseline Cluster (Normal)',
                type: 'scatter3d',
                marker: { size: 3.5, color: 'dodgerblue', opacity: 0.5 }
            };

            const traceAnomaly = {
                x: anomX, y: anomY, z: anomZ,
                mode: 'markers',
                name: 'Threat Vectors (Anomalies)',
                type: 'scatter3d',
                marker: { size: 5, color: 'crimson', symbol: 'x', opacity: 0.85 }
            };

            // Simple SVDD Decision Sphere around the normal center
            const avgX = 35;
            const avgY = 8000;
            const avgZ = 150;
            const radius = 120;

            const u = [];
            const v = [];
            for (let i = 0; i <= 20; i++) { u.push((i / 20) * 2 * Math.PI); }
            for (let i = 0; i <= 20; i++) { v.push((i / 20) * Math.PI); }

            const xs = [];
            const ys = [];
            const zs = [];
            for (let i = 0; i < u.length; i++) {
                const rowX = [];
                const rowY = [];
                const rowZ = [];
                for (let j = 0; j < v.length; j++) {
                    rowX.push(avgX + radius * Math.cos(u[i]) * Math.sin(v[j]));
                    rowY.push(avgY + (radius * 120) * Math.sin(u[i]) * Math.sin(v[j])); // stretch for byte rate
                    rowZ.push(avgZ + radius * Math.cos(v[j]));
                }
                xs.push(rowX);
                ys.push(rowY);
                zs.push(rowZ);
            }

            const boundarySurface = {
                x: xs, y: ys, z: zs,
                type: 'surface',
                opacity: 0.08,
                colorscale: [[0, 'rgb(34,197,94)']],
                showscale: false,
                name: 'SVDD Boundary Sphere'
            };

            const plotLayout = {
                paper_bgcolor: 'rgba(0,0,0,0)',
                plot_bgcolor: 'rgba(0,0,0,0)',
                scene: {
                    xaxis: { title: 'Pkts/sec', gridcolor: '#1e293b', zerolinecolor: '#1e293b', tickfont: { size: 9, color: '#64748b' } },
                    yaxis: { title: 'Bytes/sec', gridcolor: '#1e293b', zerolinecolor: '#1e293b', tickfont: { size: 9, color: '#64748b' } },
                    zaxis: { title: 'Avg Size', gridcolor: '#1e293b', zerolinecolor: '#1e293b', tickfont: { size: 9, color: '#64748b' } },
                    camera: { eye: { x: 1.5, y: 1.5, z: 1.1 } }
                },
                margin: { l: 0, r: 0, b: 0, t: 0 },
                legend: { x: 0, y: 1, font: { color: '#94a3b8', size: 10 } }
            };

            const plotConfig = { responsive: true, displayModeBar: false };

            Plotly.react('chart-3d', [traceNormal, traceAnomaly, boundarySurface], plotLayout, plotConfig);
        }

        // Initial setup and polling triggers
        async function init() {
            await fetchStats();
            await fetchAnomalies();

            // Interval loops
            setInterval(fetchStats, 1000);
            setInterval(fetchAnomalies, 2000);
        }

        window.onload = init;
    </script>
</body>
</html>
"#;

} // verus!
